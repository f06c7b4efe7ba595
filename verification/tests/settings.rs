use on_air_record::models::settings::{
    bit_rate_for, nearest_supported_rate, Settings, SettingsPatch, AUTO_START_DELAY_SECONDS_RANGE,
    FRAME_MS_RANGE, KEY_AUTO_START, KEY_AUTO_START_DELAY_SECONDS, KEY_FRAME_MS, KEY_GAIN,
    KEY_INPUT_DEVICE_ID, KEY_RECORDING_SAMPLE_RATE, KEY_SEGMENT_SECONDS, SEGMENT_SECONDS_RANGE,
};

/// The gain range as floats, bottom and top.
const GAIN_RANGE: (f32, f32) = (0.0, 4.0);

fn pairs(entries: &[(&str, &str)]) -> Vec<(String, String)> {
    entries
        .iter()
        .map(|(key, value)| (key.to_string(), value.to_string()))
        .collect()
}

/// The stored gain parsed as the application parses it: trimmed, as an `f32`, kept as its bits.
fn parsed_gain(pairs: &[(String, String)]) -> Option<u32> {
    pairs
        .iter()
        .rev()
        .find(|(key, _)| key == KEY_GAIN)
        .and_then(|(_, value)| value.trim().parse::<f32>().ok())
        .map(f32::to_bits)
}

fn from_pairs(pairs: &[(String, String)]) -> Settings {
    Settings::from_pairs(pairs, parsed_gain(pairs))
}

fn to_pairs(settings: &Settings) -> Vec<(String, String)> {
    settings.to_pairs(&f32::from_bits(settings.gain_bits).to_string())
}

fn gain(settings: &Settings) -> f32 {
    f32::from_bits(settings.gain_bits)
}

#[test]
fn round_trips_through_pairs() {
    let settings = Settings {
        input_device_id: Some("Scarlett Solo USB".to_string()),
        gain_bits: 1.5f32.to_bits(),
        segment_seconds: 20,
        retention_hours: Some(48),
        auto_start: false,
        auto_start_delay_seconds: 15,
        frame_ms: 40,
        recording_sample_rate: Some(16_000),
        recordings_dir: Some("/mnt/audio".to_string()),
        check_for_updates: false,
    };
    let pairs = to_pairs(&settings);
    assert_eq!(from_pairs(&pairs), settings);
}

#[test]
fn empty_device_id_becomes_none() {
    let pairs = pairs(&[(KEY_INPUT_DEVICE_ID, "  ")]);
    assert_eq!(from_pairs(&pairs).input_device_id, None);
}

#[test]
fn out_of_range_values_are_clamped() {
    let pairs = pairs(&[
        (KEY_GAIN, "99"),
        (KEY_SEGMENT_SECONDS, "1"),
        (KEY_FRAME_MS, "5000"),
        (KEY_AUTO_START_DELAY_SECONDS, "86400"),
    ]);
    let settings = from_pairs(&pairs);
    assert_eq!(gain(&settings), GAIN_RANGE.1);
    assert_eq!(settings.segment_seconds, SEGMENT_SECONDS_RANGE.0);
    assert_eq!(settings.frame_ms, FRAME_MS_RANGE.1);
    assert_eq!(
        settings.auto_start_delay_seconds,
        AUTO_START_DELAY_SECONDS_RANGE.1
    );
}

#[test]
fn an_existing_install_keeps_starting_immediately() {
    // A database written before the delay existed has no row for it, and must behave as it always
    // did rather than quietly gaining a pause at boot.
    let pairs = pairs(&[(KEY_AUTO_START, "true")]);
    assert_eq!(from_pairs(&pairs).auto_start_delay_seconds, 0);
}

#[test]
fn garbage_falls_back_to_defaults() {
    let pairs = pairs(&[(KEY_GAIN, "loud"), (KEY_AUTO_START, "maybe")]);
    let settings = from_pairs(&pairs);
    assert_eq!(gain(&settings), gain(&Settings::default()));
    assert_eq!(settings.auto_start, Settings::default().auto_start);
}

#[test]
fn the_sample_rate_ladder_is_the_bit_rate_ladder() {
    // Uncompressed 16 bit mono, so the two are the same number scaled by sixteen.
    assert_eq!(bit_rate_for(48_000), 768_000);
    assert_eq!(bit_rate_for(16_000), 256_000);
    assert_eq!(bit_rate_for(8_000), 128_000);
}

#[test]
fn an_unsupported_rate_snaps_to_the_nearest_offered_one() {
    let pairs_44 = pairs(&[(KEY_RECORDING_SAMPLE_RATE, "44100")]);
    assert_eq!(from_pairs(&pairs_44).recording_sample_rate, Some(48_000));

    let low = pairs(&[(KEY_RECORDING_SAMPLE_RATE, "9000")]);
    assert_eq!(from_pairs(&low).recording_sample_rate, Some(8_000));
}

#[test]
fn an_empty_rate_means_follow_the_device() {
    let pairs = pairs(&[(KEY_RECORDING_SAMPLE_RATE, "")]);
    assert_eq!(from_pairs(&pairs).recording_sample_rate, None);
}

#[test]
fn the_effective_rate_never_exceeds_the_device() {
    let native = Settings::default();
    assert_eq!(native.effective_sample_rate(44_100), 44_100);

    let asked_for_more = Settings {
        recording_sample_rate: Some(48_000),
        ..Settings::default()
    };
    // Upsampling would invent detail and double the disk, so the device rate wins.
    assert_eq!(asked_for_more.effective_sample_rate(16_000), 16_000);

    let asked_for_less = Settings {
        recording_sample_rate: Some(16_000),
        ..Settings::default()
    };
    assert_eq!(asked_for_less.effective_sample_rate(48_000), 16_000);
}

#[test]
fn retention_converts_to_milliseconds() {
    let settings = Settings {
        retention_hours: Some(2),
        ..Settings::default()
    };
    assert_eq!(settings.retention_ms(), Some(7_200_000));
    assert!(!settings.keeps_forever());

    let forever = Settings {
        retention_hours: None,
        ..Settings::default()
    };
    assert_eq!(forever.retention_ms(), None);
    assert!(forever.keeps_forever());
}

#[test]
fn patch_only_touches_the_fields_it_sets() {
    let base = Settings::default();
    let patch = SettingsPatch {
        gain_bits: Some(2.0f32.to_bits()),
        ..SettingsPatch::default()
    };
    let updated = patch.apply_to(&base);
    assert_eq!(gain(&updated), 2.0);
    assert_eq!(updated.retention_hours, base.retention_hours);
}

#[test]
fn patch_can_clear_the_device_or_leave_it_alone() {
    let base = Settings {
        input_device_id: Some("mic".to_string()),
        ..Settings::default()
    };

    let untouched = SettingsPatch::default().apply_to(&base);
    assert_eq!(untouched.input_device_id, Some("mic".to_string()));

    let cleared = SettingsPatch {
        input_device_id: Some(None),
        ..SettingsPatch::default()
    }
    .apply_to(&base);
    assert_eq!(cleared.input_device_id, None);
}

#[test]
fn patch_clamps_what_it_applies() {
    let patch = SettingsPatch {
        gain_bits: Some((-3.0f32).to_bits()),
        ..SettingsPatch::default()
    };
    assert_eq!(gain(&patch.apply_to(&Settings::default())), GAIN_RANGE.0);
}

#[test]
fn only_device_and_frame_size_force_a_capture_restart() {
    let base = Settings::default();

    let gain_only = SettingsPatch {
        gain_bits: Some(2.0f32.to_bits()),
        ..SettingsPatch::default()
    };
    assert!(!gain_only.requires_capture_restart(&base));

    let device_change = SettingsPatch {
        input_device_id: Some(Some("other".to_string())),
        ..SettingsPatch::default()
    };
    assert!(device_change.requires_capture_restart(&base));

    let frame_change = SettingsPatch {
        frame_ms: Some(40),
        ..SettingsPatch::default()
    };
    assert!(frame_change.requires_capture_restart(&base));
}

#[test]
fn an_empty_patch_is_detected() {
    assert!(SettingsPatch::default().is_empty());
    assert!(!SettingsPatch {
        auto_start: Some(false),
        ..SettingsPatch::default()
    }
    .is_empty());
}

#[test]
fn infinite_and_nan_gains_fall_back_to_unity() {
    let patch = SettingsPatch {
        gain_bits: Some(f32::NAN.to_bits()),
        ..SettingsPatch::default()
    };
    assert_eq!(gain(&patch.apply_to(&Settings::default())), 1.0);
    let patch = SettingsPatch {
        gain_bits: Some(f32::INFINITY.to_bits()),
        ..SettingsPatch::default()
    };
    assert_eq!(gain(&patch.apply_to(&Settings::default())), 1.0);
}

#[test]
fn clamping_twice_changes_nothing() {
    let wild = Settings {
        segment_seconds: 100_000,
        retention_hours: Some(0),
        frame_ms: 1,
        recording_sample_rate: Some(11_025),
        ..Settings::default()
    };
    let once = wild.clamped();
    assert_eq!(once.segment_seconds, 300);
    assert_eq!(once.retention_hours, Some(1));
    assert_eq!(once.frame_ms, 20);
    assert_eq!(once.recording_sample_rate, Some(8_000));
    let twice = once.clone().clamped();
    assert_eq!(once, twice);
}

#[test]
fn nearest_rates_are_fixed_points_and_ties_go_up() {
    for rate in [48_000, 32_000, 24_000, 16_000, 8_000] {
        assert_eq!(nearest_supported_rate(rate), rate);
    }
    assert_eq!(nearest_supported_rate(20_000), 24_000);
    assert_eq!(nearest_supported_rate(0), 8_000);
    assert_eq!(nearest_supported_rate(u32::MAX), 48_000);
}
