use on_air_record::dto::auth_dto::{AuthStateResponse, UserDto};
use on_air_record::dto::bookmark_dto::{BookmarkDto, CreateBookmarkRequest, UpdateBookmarkRequest};
use on_air_record::dto::update_dto::{UpdateStatus, UpdateStatusResponse};
use on_air_record::models::bookmark::{Bookmark, BookmarkDraft, BookmarkPatch};
use on_air_record::models::update::{Channel, InstallKind, Release};
use on_air_record::models::user::{AuthMode, Role, User};

fn status(newer: Vec<Release>) -> UpdateStatus {
    UpdateStatus {
        current: "0.6.0".to_string(),
        channel: Channel::Stable,
        automatic: true,
        checked_at_ms: Some(5),
        error: None,
        newer,
        install: InstallKind::Installer {
            dir: "/home/me/on-air-record".to_string(),
        },
        target: "x86_64-unknown-linux-gnu",
    }
}

fn release(tag: &str) -> Release {
    Release {
        tag: tag.to_string(),
        prerelease: false,
        draft: false,
        published_at_ms: Some(1),
        notes: "### Added".to_string(),
        url: "https://example.com".to_string(),
    }
}

#[test]
fn the_newest_release_is_the_one_available() {
    let response = UpdateStatusResponse::from_status(
        status(vec![release("v0.7.0"), release("v0.6.1")]),
        "linux",
        "example/on-air-record",
    );
    assert_eq!(response.current_version, "0.6.0");
    assert_eq!(response.channel, Channel::Stable);
    let available = response.available.as_ref().expect("an update");
    assert_eq!(available.version, "0.7.0");
    assert_eq!(available.tag, "v0.7.0");
    assert_eq!(response.releases.len(), 2);
    assert_eq!(response.releases[1].version, "0.6.1");
    assert_eq!(response.install.kind, "installer");
    assert_eq!(response.install.dir.as_deref(), Some("/home/me/on-air-record"));
    assert_eq!(response.install.target, "x86_64-unknown-linux-gnu");
    assert_eq!(response.install.os, "linux");
    assert_eq!(
        response.releases_url,
        "https://github.com/example/on-air-record/releases"
    );
    assert!(response.automatic);
    assert_eq!(response.checked_at_ms, Some(5));
}

#[test]
fn up_to_date_has_nothing_available() {
    let response = UpdateStatusResponse::from_status(status(Vec::new()), "linux", "example/x");
    assert!(response.available.is_none());
    assert_eq!(response.releases.len(), 0);
}

#[test]
fn bookmarks_serialise_with_camel_case_keys() {
    let dto = BookmarkDto::from(Bookmark {
        id: 7,
        timestamp_ms: 1_757_030_400_000,
        label: "Doorbell".to_string(),
        note: None,
        created_at_ms: 1_757_030_500_000,
    });
    assert_eq!(dto.id, 7);
    assert_eq!(dto.timestamp_ms, 1_757_030_400_000_i64);
    assert_eq!(dto.created_at_ms, 1_757_030_500_000_i64);
    assert_eq!(dto.label, "Doorbell");
    assert!(dto.note.is_none());
}

#[test]
fn a_create_request_needs_only_a_time_and_a_label() {
    let request = CreateBookmarkRequest {
        timestamp_ms: 1_757_030_400_000,
        label: "Doorbell".to_string(),
        note: None,
    };
    let draft: BookmarkDraft = request.into();
    assert_eq!(draft.label, "Doorbell");
    assert_eq!(draft.timestamp_ms, 1_757_030_400_000);
    assert_eq!(draft.note, None);
}

#[test]
fn an_absent_note_and_a_null_note_mean_different_things() {
    let untouched: BookmarkPatch = UpdateBookmarkRequest {
        label: Some("Renamed".to_string()),
        ..UpdateBookmarkRequest::default()
    }
    .into();
    assert_eq!(untouched.note, None);
    assert_eq!(untouched.label.as_deref(), Some("Renamed"));

    let cleared: BookmarkPatch = UpdateBookmarkRequest {
        note: Some(None),
        ..UpdateBookmarkRequest::default()
    }
    .into();
    assert_eq!(cleared.note, Some(None));
    assert_eq!(cleared.label, None);
}

#[test]
fn the_state_serialises_mode_and_role_in_lowercase() {
    let state = AuthStateResponse {
        mode: AuthMode::Accounts,
        user: Some(UserDto::new(
            User {
                id: 3,
                email: "owner@example.com".to_string(),
                role: Role::Admin,
                created_at_ms: 1,
            },
            true,
        )),
        pending_two_factor: false,
    };
    assert_eq!(state.mode.as_str(), "accounts");
    let user = state.user.as_ref().expect("a user");
    assert_eq!(user.role.as_str(), "admin");
    assert_eq!(user.id, 3);
    assert_eq!(user.email, "owner@example.com");
    assert_eq!(user.created_at_ms, 1);
    assert!(user.two_factor_enabled);
    assert!(!state.pending_two_factor);
}
