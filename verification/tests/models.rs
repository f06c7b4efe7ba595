use on_air_record::error::AppError;
use on_air_record::models::audio_frame::AudioFrame;
use on_air_record::models::bookmark::{Bookmark, BookmarkDraft, BookmarkPatch, LABEL_MAX_CHARS};
use on_air_record::models::capture_state::{CaptureSnapshot, CaptureState};
use on_air_record::models::segment::{Segment, TimeRange};
use on_air_record::models::user::{authorize, Access, AuthMode, Denied, Role, User};

fn sample_segment() -> Segment {
    Segment {
        id: 1,
        session_id: 1,
        sequence: 0,
        path: "recordings/1/000000.pcm".to_string(),
        started_at_ms: 1_000_000,
        ended_at_ms: 1_010_000,
        sample_rate: 48_000,
        channels: 1,
        byte_len: 960_000,
        peaks: vec![0; 100],
    }
}

#[test]
fn offset_at_segment_start_is_zero() {
    assert_eq!(sample_segment().byte_offset_for(1_000_000), 0);
}

#[test]
fn offset_scales_with_elapsed_time() {
    // One second into a 48 kHz mono segment is 48000 samples, so 96000 bytes.
    assert_eq!(sample_segment().byte_offset_for(1_001_000), 96_000);
}

#[test]
fn offset_is_clamped_to_the_file() {
    let segment = sample_segment();
    assert_eq!(segment.byte_offset_for(0), 0);
    assert_eq!(segment.byte_offset_for(i64::MAX), segment.byte_len);
}

#[test]
fn offset_and_timestamp_round_trip() {
    let segment = sample_segment();
    let offset = segment.byte_offset_for(1_003_500);
    assert_eq!(segment.timestamp_for_offset(offset), 1_003_500);
}

#[test]
fn ranges_detect_overlap_and_containment() {
    let range = TimeRange::new(100, 200);
    assert!(range.contains(100));
    assert!(!range.contains(200));
    assert!(range.overlaps(&TimeRange::new(150, 250)));
    assert!(!range.overlaps(&TimeRange::new(200, 300)));
}

#[test]
fn a_segment_reports_its_range_duration_and_frame_size() {
    let segment = sample_segment();
    assert_eq!(segment.range(), TimeRange::new(1_000_000, 1_010_000));
    assert_eq!(segment.duration_ms(), 10_000);
    assert_eq!(segment.bytes_per_sample_frame(), 2);
    assert_eq!(TimeRange::new(200, 100).duration_ms(), 0);
    let stereo = Segment {
        channels: 2,
        ..sample_segment()
    };
    assert_eq!(stereo.bytes_per_sample_frame(), 4);
    let muted = Segment {
        sample_rate: 0,
        ..sample_segment()
    };
    assert_eq!(muted.timestamp_for_offset(4_000), 1_000_000);
}

#[test]
fn duration_matches_sample_rate() {
    let frame = AudioFrame::from_samples(1000, 48_000, 1, vec![0; 4800], true);
    assert_eq!(frame.sample_count(), 4800);
    assert_eq!(frame.duration_ms(), 100);
    assert_eq!(frame.end_timestamp_ms(), 1100);
}

#[test]
fn payload_is_little_endian() {
    let frame = AudioFrame::from_samples(0, 48_000, 1, vec![1, -1], true);
    assert_eq!(frame.to_le_bytes(), vec![0x01, 0x00, 0xff, 0xff]);
}

#[test]
fn empty_frame_has_no_duration() {
    let frame = AudioFrame::from_samples(0, 48_000, 1, Vec::new(), true);
    assert_eq!(frame.duration_ms(), 0);
}

fn user(role: Role) -> User {
    User {
        id: 1,
        email: "someone@example.com".to_string(),
        role,
        created_at_ms: 0,
    }
}

#[test]
fn an_open_or_undecided_install_lets_anyone_do_anything() {
    for mode in [AuthMode::Undecided, AuthMode::Open] {
        assert_eq!(authorize(mode, None, Access::Administer), Ok(()));
        assert_eq!(authorize(mode, None, Access::Listen), Ok(()));
    }
}

#[test]
fn with_accounts_nobody_signed_in_is_asked_to_sign_in() {
    assert_eq!(
        authorize(AuthMode::Accounts, None, Access::Listen),
        Err(Denied::SignInRequired)
    );
    assert_eq!(
        authorize(AuthMode::Accounts, None, Access::Administer),
        Err(Denied::SignInRequired)
    );
}

#[test]
fn a_listener_may_listen_but_not_administer() {
    let listener = user(Role::Listener);
    assert_eq!(
        authorize(AuthMode::Accounts, Some(&listener), Access::Listen),
        Ok(())
    );
    assert_eq!(
        authorize(AuthMode::Accounts, Some(&listener), Access::Administer),
        Err(Denied::NotAllowed)
    );
}

#[test]
fn an_admin_may_do_anything() {
    let admin = user(Role::Admin);
    assert_eq!(
        authorize(AuthMode::Accounts, Some(&admin), Access::Listen),
        Ok(())
    );
    assert_eq!(
        authorize(AuthMode::Accounts, Some(&admin), Access::Administer),
        Ok(())
    );
}

#[test]
fn stored_names_round_trip() {
    for role in [Role::Admin, Role::Listener] {
        assert_eq!(Role::parse(role.as_str()), Some(role));
    }
    for mode in [AuthMode::Undecided, AuthMode::Open, AuthMode::Accounts] {
        assert_eq!(AuthMode::parse(mode.as_str()), Some(mode));
    }
    assert_eq!(Role::parse("root"), None);
}

#[test]
fn only_accounts_mode_asks_for_a_login() {
    assert!(AuthMode::Accounts.requires_login());
    assert!(!AuthMode::Open.requires_login());
    assert!(!AuthMode::Undecided.requires_login());
    assert_eq!(AuthMode::parse("Accounts"), None);
}

fn draft(label: &str) -> BookmarkDraft {
    BookmarkDraft {
        timestamp_ms: 1_757_030_400_000,
        label: label.to_string(),
        note: None,
    }
}

#[test]
fn trims_surrounding_whitespace() {
    let clean = draft("  Interview starts  ").sanitised().expect("valid");
    assert_eq!(clean.label, "Interview starts");
}

#[test]
fn rejects_a_label_that_is_only_whitespace() {
    assert!(draft("   ").sanitised().is_err());
    assert!(draft("").sanitised().is_err());
}

#[test]
fn rejects_a_label_that_is_too_long() {
    let long = "a".repeat(LABEL_MAX_CHARS + 1);
    assert!(draft(&long).sanitised().is_err());
    // The boundary itself is fine.
    assert!(draft(&"a".repeat(LABEL_MAX_CHARS)).sanitised().is_ok());
}

#[test]
fn counts_characters_rather_than_bytes() {
    // A label of accented characters is not secretly half as long as it looks.
    let accented = "e\u{0301}".repeat(LABEL_MAX_CHARS / 2);
    assert!(draft(&accented).sanitised().is_ok());
}

#[test]
fn an_empty_note_becomes_absent() {
    let cleaned = BookmarkDraft {
        note: Some("   ".to_string()),
        ..draft("Marker")
    }
    .sanitised()
    .expect("valid");
    assert_eq!(cleaned.note, None);
}

#[test]
fn a_patch_leaves_untouched_fields_alone() {
    let existing = Bookmark {
        id: 1,
        timestamp_ms: 1_000,
        label: "Original".to_string(),
        note: Some("why".to_string()),
        created_at_ms: 500,
    };

    let renamed = BookmarkPatch {
        label: Some("Renamed".to_string()),
        ..BookmarkPatch::default()
    }
    .apply_to(&existing)
    .expect("valid");

    assert_eq!(renamed.label, "Renamed");
    assert_eq!(renamed.timestamp_ms, 1_000);
    assert_eq!(renamed.note, Some("why".to_string()));
}

#[test]
fn a_patch_can_clear_the_note() {
    let existing = Bookmark {
        id: 1,
        timestamp_ms: 1_000,
        label: "Original".to_string(),
        note: Some("why".to_string()),
        created_at_ms: 500,
    };

    let cleared = BookmarkPatch {
        note: Some(None),
        ..BookmarkPatch::default()
    }
    .apply_to(&existing)
    .expect("valid");

    assert_eq!(cleared.note, None);
}

#[test]
fn a_patch_that_empties_the_label_is_rejected() {
    let existing = Bookmark {
        id: 1,
        timestamp_ms: 1_000,
        label: "Original".to_string(),
        note: None,
        created_at_ms: 500,
    };

    assert!(BookmarkPatch {
        label: Some("  ".to_string()),
        ..BookmarkPatch::default()
    }
    .apply_to(&existing)
    .is_err());
}

#[test]
fn each_bookmark_problem_has_its_own_message() {
    match draft(" ").sanitised() {
        Err(AppError::BadRequest(message)) => assert_eq!(message, "a bookmark needs a label"),
        other => panic!("unexpected {other:?}"),
    }
    match draft(&"b".repeat(121)).sanitised() {
        Err(AppError::BadRequest(message)) => {
            assert_eq!(message, "the label is too long, keep it under 120 characters")
        }
        other => panic!("unexpected {other:?}"),
    }
    let wordy = BookmarkDraft {
        note: Some(format!("  {}  ", "n".repeat(2001))),
        ..draft("Marker")
    };
    match wordy.sanitised() {
        Err(AppError::BadRequest(message)) => {
            assert_eq!(message, "the note is too long, keep it under 2000 characters")
        }
        other => panic!("unexpected {other:?}"),
    }
    let kept = BookmarkDraft {
        note: Some(format!("  {}  ", "n".repeat(2000))),
        ..draft("Marker")
    };
    assert_eq!(kept.sanitised().expect("valid").note.map(|n| n.len()), Some(2000));
}

#[test]
fn sanitising_twice_changes_nothing_more() {
    let once = draft("  Doorbell ").sanitised().expect("valid");
    let twice = once.clone().sanitised().expect("still valid");
    assert_eq!(once, twice);
    assert!(BookmarkPatch::default().is_empty());
    assert!(!BookmarkPatch {
        timestamp_ms: Some(5),
        ..BookmarkPatch::default()
    }
    .is_empty());
}

#[test]
fn starting_and_recording_count_as_active() {
    assert!(CaptureState::Starting.is_active());
    assert!(CaptureState::Recording.is_active());
    assert!(!CaptureState::Idle.is_active());
    assert!(!CaptureState::Error.is_active());
    let snapshot = CaptureSnapshot::default();
    assert_eq!(snapshot.state, CaptureState::Idle);
    assert_eq!(snapshot.dropped_frames, 0);
    assert!(snapshot.device_id.is_none());
}
