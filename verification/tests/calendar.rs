use on_air_record::audio::frame_builder::FrameBuilder;
use on_air_record::audio::peaks::{render, PeakEnvelopeBuilder, PeakSource};
use on_air_record::audio::segment_writer::{SegmentLayout, SegmentLocation};
use on_air_record::config::{AppConfig, CliArgs, EnvironmentValues};
use on_air_record::controllers::export_controller::{filename, format_stamp};
use on_air_record::models::capture_state::live_edge_ms;
use on_air_record::models::device::InputDevice;
use on_air_record::models::segment::{Segment, TimeRange};
use on_air_record::models::update::Version;
use on_air_record::util::day::local_day;

#[test]
fn non_canonical_numbers_are_not_versions() {
    for text in ["01.2.3", "1.02.3", "1.2.03", "+1.2.3", "1.+2.3", "1.2.3-beta.01", "1.2.3-beta.+4"] {
        assert_eq!(Version::parse(text), None, "{text}");
    }
    assert_eq!(
        Version::parse("v0.10.0-beta.0"),
        Some(Version {
            major: 0,
            minor: 10,
            patch: 0,
            beta: Some(0)
        })
    );
}

#[test]
fn the_local_day_is_within_a_day_of_the_utc_date() {
    // 2025-09-05 12:00 UTC: every time zone is somewhere on the 4th, 5th or 6th.
    let day = local_day(1_757_073_600_000);
    assert!(["2025-09-04", "2025-09-05", "2025-09-06"].contains(&day.as_str()), "{day}");
    // The epoch itself.
    let epoch = local_day(0);
    assert!(["1969-12-31", "1970-01-01", "1970-01-02"].contains(&epoch.as_str()), "{epoch}");
    // Years apart, the days differ.
    assert_ne!(local_day(0), local_day(1_757_073_600_000));
}

#[test]
fn a_segment_is_filed_under_the_day_it_starts_on() {
    let layout = SegmentLayout::under_data_dir("/srv/oar");
    let location = SegmentLocation::for_segment(&layout, 4, 1, 1_757_073_600_000);
    assert_eq!(location.day, local_day(1_757_073_600_000));
    assert!(location.day.starts_with("2025-09-0"));
}

#[test]
fn an_export_is_named_after_the_local_times_of_its_ends() {
    assert_eq!(format_stamp(2025, 9, 5, 7, 3, 9), "2025-09-05_07-03-09");
    let name = filename(TimeRange {
        start_ms: 1_757_073_600_000,
        end_ms: 1_757_077_200_000,
    });
    assert!(name.starts_with("on-air-record_2025-09-0"), "{name}");
    assert!(name.ends_with(".wav"));
    assert!(name.contains("_to_2025-09-0"), "{name}");
    assert_ne!(
        name,
        "on-air-record_1970-01-01_00-00-00_to_1970-01-01_00-00-00.wav"
    );
}

#[test]
fn a_very_wide_render_and_a_source_at_the_clock_limit_still_draw() {
    let values = [0u8, 0, 9];
    let sources = [PeakSource {
        start_ms: i64::MAX - 250,
        values: &values,
    }];
    // The loud bucket starts 50 ms before the end of time and reaches past it: the second column.
    let rendered = render(&sources, i64::MAX - 100, i64::MAX, 2);
    assert_eq!(rendered, vec![0, 9]);
}

#[test]
fn a_stereo_segment_seeks_by_its_own_frame_size() {
    let segment = Segment {
        id: 1,
        session_id: 1,
        sequence: 0,
        path: "recordings/1/000000.pcm".to_string(),
        started_at_ms: 0,
        ended_at_ms: 10_000,
        sample_rate: 48_000,
        channels: 2,
        byte_len: 1_920_000,
        peaks: Vec::new(),
    };
    assert_eq!(segment.byte_offset_for(1_000), 192_000);
    assert_eq!(segment.byte_offset_for(-5), 0);
    assert!(segment.byte_offset_for(2_000) <= segment.byte_offset_for(2_001));
}

#[test]
fn pushes_in_pieces_emit_whole_frames_in_order() {
    let mut builder = FrameBuilder::new(48_000, 1, 100);
    let first: Vec<i16> = (0..2000).map(|i| i as i16).collect();
    let second: Vec<i16> = (2000..7000).map(|i| i as i16).collect();
    let mut frames = builder.push(&first, 10_000);
    frames.extend(builder.push(&second, 10_100));
    assert_eq!(frames.len(), 1);
    assert_eq!(frames[0].samples.len(), 4800);
    let expected: Vec<i16> = (0..4800).map(|i| i as i16).collect();
    assert_eq!(*frames[0].samples, expected);
    let rest = builder.flush(10_200);
    assert_eq!(rest.len(), 1);
    assert_eq!(rest[0].samples.len(), 2200);
}

#[test]
fn an_envelope_fed_in_pieces_has_one_value_per_started_bucket() {
    let mut envelope = PeakEnvelopeBuilder::new(48_000);
    envelope.push(&vec![0; 3000]);
    envelope.push(&vec![0; 3000]);
    assert_eq!(envelope.len(), 1);
    envelope.push(&vec![0; 4000]);
    assert_eq!(envelope.len(), 2);
    assert_eq!(envelope.finish(), vec![0, 0, 0]);
}

#[test]
fn the_opened_device_is_described_by_its_host_name() {
    let chosen = InputDevice::resolved("Scarlett Solo USB", true, 2, 48_000);
    assert_eq!(chosen.id, "Scarlett Solo USB");
    assert_eq!(chosen.name, "Scarlett Solo USB");
    assert!(!chosen.is_default);
    assert!(chosen.available);
    assert_eq!((chosen.channels, chosen.sample_rate), (2, 48_000));
    assert!(InputDevice::resolved("Built-in", false, 1, 44_100).is_default);
}

#[test]
fn stored_paths_compare_directories_component_by_component() {
    let layout = SegmentLayout {
        recordings_dir: "/srv//oar/recordings".to_string(),
        relative_to: Some("/srv/oar".to_string()),
    };
    let location = SegmentLocation::for_segment_on_day(&layout, 3, 12, "2025-09-05");
    assert_eq!(location.absolute_path, "/srv//oar/recordings/2025-09-05/3/000012.pcm");
    assert_eq!(location.relative_path, "recordings/2025-09-05/3/000012.pcm");

    let dotted = SegmentLayout {
        recordings_dir: "/srv/oar/./recordings".to_string(),
        relative_to: Some("/srv/oar/".to_string()),
    };
    let location = SegmentLocation::for_segment_on_day(&dotted, 3, 12, "2025-09-05");
    assert_eq!(location.relative_path, "recordings/2025-09-05/3/000012.pcm");

    let default_layout = SegmentLayout::under_data_dir("./data");
    let location = SegmentLocation::for_segment_on_day(&default_layout, 1, 0, "2025-09-05");
    assert_eq!(location.absolute_path, "./data/recordings/2025-09-05/1/000000.pcm");
    assert_eq!(location.relative_path, "recordings/2025-09-05/1/000000.pcm");

    let config = AppConfig {
        data_dir: "/srv/oar".to_string(),
        ..AppConfig::default()
    };
    assert_eq!(config.relativise_data_path("/srv//oar/./x.pcm"), "x.pcm");
    assert_eq!(config.relativise_data_path("/srv/oar/sub/"), "sub");
    assert_eq!(config.relativise_data_path("srv/oar/x.pcm"), "srv/oar/x.pcm");
}

#[test]
fn the_data_directory_is_anchored_where_the_service_started() {
    let args = CliArgs {
        host: None,
        port: None,
        data_dir: None,
        static_dir: None,
        log_level: None,
    };
    let empty = EnvironmentValues {
        host: None,
        port: None,
        data_dir: None,
        static_dir: None,
        log_level: None,
    };
    let config = AppConfig::resolve(args, &empty, "/opt/oar");
    assert_eq!(config.data_dir, "/opt/oar/data");
    assert_eq!(config.database_path(), "/opt/oar/data/on-air-record.sqlite");

    let flagged = CliArgs {
        host: None,
        port: None,
        data_dir: Some("/var/lib/oar".to_string()),
        static_dir: None,
        log_level: None,
    };
    let config = AppConfig::resolve(flagged, &empty, "/opt/oar");
    assert_eq!(config.data_dir, "/var/lib/oar");
}

#[test]
fn the_live_edge_prefers_the_newest_frame() {
    assert_eq!(live_edge_ms(Some(5_000), Some(4_000)), Some(5_000));
    assert_eq!(live_edge_ms(None, Some(4_000)), Some(4_000));
    assert_eq!(live_edge_ms(None, None), None);
}
