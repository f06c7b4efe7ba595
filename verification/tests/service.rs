use on_air_record::config::{
    AppConfig, AppConfigBuilder, CliArgs, EnvironmentValues, DEFAULT_LOG_LEVEL,
};
use on_air_record::controllers::auth_context::{
    clear_session_cookie, same_origin, session_cookie, session_token, Caller, RequestHeaders,
};
use on_air_record::controllers::stream_controller::{user_agent, USER_AGENT_LIMIT};
use on_air_record::controllers::timeline_controller::check_peaks_window;
use on_air_record::db::migrations::{latest_version, migrations, pending_migrations};
use on_air_record::dto::auth_dto::{CreateUserRequest, UpdateUserRequest};
use on_air_record::dto::device_dto::DeviceDto;
use on_air_record::dto::session_dto::{bytes_per_hour, StorageContext, StorageResponse};
use on_air_record::dto::timeline_dto::{default_buckets, TimelineRangeResponse};
use on_air_record::dto::update_dto::{InstallDto, ReleaseDto};
use on_air_record::error::AppError;
use on_air_record::models::device::InputDevice;
use on_air_record::models::segment::TimeRange;
use on_air_record::models::settings::Settings;
use on_air_record::models::update::{InstallKind, Release};
use on_air_record::models::user::{AuthMode, Role, User};
use on_air_record::repositories::auth::{
    account_email, check_choose_open, check_first_admin_setup, check_removal, check_role_change,
    stored_mode, stored_role,
};
use on_air_record::repositories::segments::{merge_ranges, SegmentStorageStats};

fn no_environment() -> EnvironmentValues {
    EnvironmentValues {
        host: None,
        port: None,
        data_dir: None,
        static_dir: None,
        log_level: None,
    }
}

#[test]
fn cli_overrides_defaults() {
    let args = CliArgs {
        host: Some("127.0.0.1".to_string()),
        port: Some(9000),
        data_dir: None,
        static_dir: None,
        log_level: None,
    };
    let config = AppConfigBuilder::new().with_cli(args).build();
    assert_eq!(config.host, "127.0.0.1");
    assert_eq!(config.port, 9000);
    assert_eq!(config.log_level, DEFAULT_LOG_LEVEL);
}

#[test]
fn database_path_sits_inside_data_dir() {
    let config = AppConfig {
        data_dir: "/srv/oar".to_string(),
        ..AppConfig::default()
    };
    assert_eq!(config.database_path(), "/srv/oar/on-air-record.sqlite");
}

#[test]
fn segment_paths_round_trip() {
    let config = AppConfig {
        data_dir: "/srv/oar".to_string(),
        ..AppConfig::default()
    };
    let absolute = config.resolve_data_path("recordings/3/000012.pcm");
    assert_eq!(
        config.relativise_data_path(&absolute),
        "recordings/3/000012.pcm"
    );
}

#[test]
fn the_environment_fills_in_what_the_command_line_leaves_open() {
    let environment = EnvironmentValues {
        host: Some("10.0.0.2".to_string()),
        port: Some(" 8181 ".to_string()),
        data_dir: Some("   ".to_string()),
        static_dir: None,
        log_level: Some("debug".to_string()),
    };
    let args = CliArgs {
        host: None,
        port: None,
        data_dir: None,
        static_dir: None,
        log_level: Some("trace".to_string()),
    };
    let config = AppConfig::resolve(args, &environment, "/home/oar");
    assert_eq!(config.host, "10.0.0.2");
    assert_eq!(config.port, 8181);
    assert_eq!(config.data_dir, "/home/oar/data");
    assert_eq!(config.static_dir, "../frontend/dist");
    assert_eq!(config.log_level, "trace");
    assert_eq!(config.recordings_dir(), "/home/oar/data/recordings");
    assert_eq!(config.database_path(), "/home/oar/data/on-air-record.sqlite");

    let typo = EnvironmentValues {
        port: Some("80800".to_string()),
        ..no_environment()
    };
    let config = AppConfigBuilder::new().with_environment(&typo).build();
    assert_eq!(config.port, 8080);
}

#[test]
fn a_path_outside_the_data_directory_stays_absolute() {
    let config = AppConfig {
        data_dir: "/srv/oar".to_string(),
        ..AppConfig::default()
    };
    assert_eq!(config.relativise_data_path("/mnt/audio/x.pcm"), "/mnt/audio/x.pcm");
    assert_eq!(config.relativise_data_path("/srv/oarx/y.pcm"), "/srv/oarx/y.pcm");
    assert_eq!(config.relativise_data_path("/srv/oar/a\\b.pcm"), "a/b.pcm");
    assert_eq!(config.resolve_data_path("/abs/file.pcm"), "/abs/file.pcm");
}

#[test]
fn migration_versions_are_unique_and_ordered() {
    let mut previous = 0;
    for migration in migrations() {
        assert!(migration.version > previous, "versions must ascend");
        previous = migration.version;
    }
}

#[test]
fn only_newer_migrations_are_pending() {
    assert_eq!(latest_version(), 5);
    assert_eq!(pending_migrations(0).len(), 5);
    let versions: Vec<i32> = pending_migrations(3).iter().map(|m| m.version).collect();
    assert_eq!(versions, [4, 5]);
    assert!(pending_migrations(latest_version()).is_empty());
    assert_eq!(migrations()[0].name, "initial schema");
}

#[test]
fn an_hour_of_mono_48k_is_about_330_mib() {
    let bytes = bytes_per_hour(48_000, 1);
    assert_eq!(bytes, 345_600_000);
    assert!((bytes as f64 / 1024.0 / 1024.0 - 329.6).abs() < 0.5);
}

#[test]
fn stereo_and_higher_rates_scale_the_figure() {
    assert_eq!(bytes_per_hour(48_000, 2), bytes_per_hour(48_000, 1) * 2);
    assert_eq!(bytes_per_hour(96_000, 1), bytes_per_hour(48_000, 1) * 2);
}

#[test]
fn an_unstarted_capture_falls_back_to_the_shipping_default() {
    assert_eq!(bytes_per_hour(0, 0), bytes_per_hour(48_000, 1));
}

#[test]
fn the_storage_figures_project_the_retention_window() {
    let stats = SegmentStorageStats {
        segment_count: 2,
        bytes: 1_000,
        oldest_ms: Some(5),
        newest_ms: Some(9),
    };
    let context = StorageContext {
        data_dir: "/srv/oar".to_string(),
        recordings_dir: "/srv/oar/recordings".to_string(),
        sample_rate: 48_000,
        channels: 1,
    };
    let settings = Settings {
        retention_hours: Some(2),
        ..Settings::default()
    };
    let response = StorageResponse::new(stats, &settings, context);
    assert_eq!(response.bytes_per_hour, 345_600_000);
    assert_eq!(response.projected_max_bytes, Some(691_200_000));
    assert_eq!(response.segment_count, 2);

    let forever = Settings {
        retention_hours: None,
        ..Settings::default()
    };
    let context = StorageContext {
        data_dir: String::new(),
        recordings_dir: String::new(),
        sample_rate: 0,
        channels: 0,
    };
    let response = StorageResponse::new(SegmentStorageStats::default(), &forever, context);
    assert_eq!(response.projected_max_bytes, None);
    assert_eq!(response.oldest_ms, None);
}

#[test]
fn coverage_merges_adjacent_ranges_and_keeps_gaps() {
    let ranges = vec![
        TimeRange::new(0, 10_000),
        TimeRange::new(10_000, 20_000),
        TimeRange::new(60_000, 70_000),
    ];
    let coverage = merge_ranges(ranges, 200);
    assert_eq!(coverage, vec![TimeRange::new(0, 20_000), TimeRange::new(60_000, 70_000)]);

    // Within the tolerance, and a range inside the band does not shorten it.
    let ranges = vec![
        TimeRange::new(0, 10_000),
        TimeRange::new(10_150, 12_000),
        TimeRange::new(11_000, 11_500),
    ];
    assert_eq!(merge_ranges(ranges, 200), vec![TimeRange::new(0, 12_000)]);
    assert!(merge_ranges(Vec::new(), 200).is_empty());
}

fn user(role: Role) -> User {
    User {
        id: 7,
        email: "owner@example.com".to_string(),
        role,
        created_at_ms: 1,
    }
}

#[test]
fn the_last_admin_can_be_neither_demoted_nor_removed() {
    assert!(matches!(
        check_role_change(Role::Admin, Role::Listener, 1),
        Err(AppError::Conflict(_))
    ));
    assert!(check_role_change(Role::Admin, Role::Listener, 2).is_ok());
    assert!(check_role_change(Role::Admin, Role::Admin, 1).is_ok());
    assert!(check_role_change(Role::Listener, Role::Admin, 1).is_ok());
    assert!(matches!(check_removal(Role::Admin, 1), Err(AppError::Conflict(_))));
    assert!(check_removal(Role::Admin, 2).is_ok());
    assert!(check_removal(Role::Listener, 1).is_ok());
}

#[test]
fn each_first_run_choice_is_made_once() {
    assert!(check_choose_open(AuthMode::Undecided).is_ok());
    assert!(check_choose_open(AuthMode::Open).is_err());
    assert!(check_choose_open(AuthMode::Accounts).is_err());
    assert!(check_first_admin_setup(AuthMode::Undecided).is_ok());
    assert!(check_first_admin_setup(AuthMode::Open).is_ok());
    match check_first_admin_setup(AuthMode::Accounts) {
        Err(AppError::Conflict(message)) => assert_eq!(message, "accounts are already set up"),
        other => panic!("unexpected {other:?}"),
    }
}

#[test]
fn unknown_stored_values_read_as_the_safe_choice() {
    assert_eq!(stored_mode("accounts"), AuthMode::Accounts);
    assert_eq!(stored_mode("open"), AuthMode::Open);
    assert_eq!(stored_mode("edited by hand"), AuthMode::Undecided);
    assert_eq!(stored_role("admin"), Role::Admin);
    assert_eq!(stored_role("superuser"), Role::Listener);
    assert_eq!(account_email("  Someone@Example.com "), "Someone@Example.com");
}

#[test]
fn an_unknown_role_is_refused() {
    let request = CreateUserRequest {
        email: "a@b.c".to_string(),
        password: "long enough".to_string(),
        role: "root".to_string(),
    };
    assert!(request.parsed_role().is_err());
    let request = UpdateUserRequest {
        role: " listener ".to_string(),
    };
    assert_eq!(request.parsed_role().ok(), Some(Role::Listener));
}

fn headers() -> RequestHeaders {
    RequestHeaders {
        cookies: Vec::new(),
        origin: None,
        host: None,
        forwarded_proto: None,
        user_agent: None,
    }
}

#[test]
fn the_session_cookie_is_found_among_others() {
    let found = session_token(&RequestHeaders {
        cookies: vec!["theme=dark; oar_session=abc123; x=1".to_string()],
        ..headers()
    });
    assert_eq!(found.as_deref(), Some("abc123"));
    assert_eq!(
        session_token(&RequestHeaders {
            cookies: vec!["oar_session=".to_string()],
            ..headers()
        }),
        None
    );
    assert_eq!(session_token(&headers()), None);
    // A later header is searched when an earlier one has none.
    assert_eq!(
        session_token(&RequestHeaders {
            cookies: vec!["a=1".to_string(), "b; oar_session= t2 ".to_string()],
            ..headers()
        })
        .as_deref(),
        Some("t2")
    );
}

#[test]
fn the_cookie_is_http_only_strict_and_secure_only_behind_https() {
    let plain = session_cookie("t", &headers());
    assert!(plain.contains("HttpOnly"));
    assert!(plain.contains("SameSite=Strict"));
    assert!(!plain.contains("Secure"));

    let proxied = session_cookie(
        "t",
        &RequestHeaders {
            forwarded_proto: Some("HTTPS".to_string()),
            ..headers()
        },
    );
    assert!(proxied.ends_with("; Secure"));
    assert_eq!(
        plain,
        "oar_session=t; Path=/; HttpOnly; SameSite=Strict; Max-Age=2592000"
    );
    assert!(clear_session_cookie().ends_with("Max-Age=0"));
}

#[test]
fn only_pages_from_this_host_may_open_the_stream() {
    let with = |origin: &str| RequestHeaders {
        host: Some("192.168.1.5:8080".to_string()),
        origin: Some(origin.to_string()),
        ..headers()
    };
    assert!(same_origin(&with("http://192.168.1.5:8080")));
    assert!(!same_origin(&with("https://evil.example")));
    assert!(!same_origin(&with("http://192.168.1.5:9999")));
    // A script or a command line client sends no Origin at all.
    assert!(same_origin(&RequestHeaders {
        host: Some("192.168.1.5:8080".to_string()),
        ..headers()
    }));
    // Case and a trailing slash do not matter; a missing Host does.
    assert!(same_origin(&with("HTTP://192.168.1.5:8080/")));
    assert!(!same_origin(&RequestHeaders {
        origin: Some("http://a".to_string()),
        ..headers()
    }));
}

#[test]
fn the_user_agent_is_kept_trimmed_and_bounded() {
    let with_agent = |value: &str| RequestHeaders {
        user_agent: Some(value.to_string()),
        ..headers()
    };
    assert_eq!(user_agent(&with_agent(" Firefox ")).as_deref(), Some("Firefox"));
    assert_eq!(user_agent(&with_agent("")), None);
    assert_eq!(user_agent(&headers()), None);
    assert_eq!(
        user_agent(&with_agent(&"x".repeat(2_000))).map(|agent| agent.len()),
        Some(USER_AGENT_LIMIT)
    );
}

#[test]
fn a_signed_in_caller_has_both_an_account_and_a_token() {
    let caller = Caller {
        user: Some(user(Role::Admin)),
        token: Some("abc".to_string()),
    };
    let (account, token) = caller.signed_in().expect("signed in");
    assert_eq!(account.id, 7);
    assert_eq!(token, "abc");
    let open = Caller {
        user: None,
        token: None,
    };
    assert!(matches!(open.signed_in(), Err(AppError::Conflict(_))));
}

#[test]
fn a_peaks_window_must_run_forwards_and_stay_narrow() {
    assert!(check_peaks_window(0, 1_000).is_ok());
    assert!(matches!(check_peaks_window(5, 5), Err(AppError::BadRequest(_))));
    assert!(check_peaks_window(0, 32 * 24 * 3_600_000).is_ok());
    assert!(check_peaks_window(0, 32 * 24 * 3_600_000 + 1).is_err());
    assert!(check_peaks_window(i64::MIN, i64::MAX).is_err());
    assert_eq!(default_buckets(), 1_000);
}

#[test]
fn a_device_is_marked_selected_by_its_id() {
    let device = InputDevice {
        id: "mic".to_string(),
        name: "Mic".to_string(),
        is_default: true,
        available: true,
        channels: 1,
        sample_rate: 48_000,
    };
    assert!(DeviceDto::from_model(device.clone(), Some("mic")).is_selected);
    assert!(!DeviceDto::from_model(device.clone(), Some("other")).is_selected);
    assert!(!DeviceDto::from_model(device, None).is_selected);
}

#[test]
fn a_release_is_shown_without_its_leading_v() {
    let release = Release {
        tag: "v0.7.0".to_string(),
        prerelease: false,
        draft: false,
        published_at_ms: Some(1),
        notes: "### Added".to_string(),
        url: "https://example.com".to_string(),
    };
    let dto = ReleaseDto::from_release(release);
    assert_eq!(dto.version, "0.7.0");
    assert_eq!(dto.tag, "v0.7.0");
    let install = InstallDto::describe(
        InstallKind::Installer {
            dir: "/home/me/on-air-record".to_string(),
        },
        "linux",
        "x86_64-unknown-linux-gnu",
    );
    assert_eq!(install.kind, "installer");
    assert_eq!(install.dir.as_deref(), Some("/home/me/on-air-record"));
    assert_eq!(InstallDto::describe(InstallKind::Systemd, "linux", "t").kind, "systemd");
}

#[test]
fn the_timeline_range_carries_every_band() {
    let response = TimelineRangeResponse::new(
        Some(0),
        Some(70_000),
        None,
        99,
        &[TimeRange::new(0, 20_000), TimeRange::new(60_000, 70_000)],
    );
    assert_eq!(response.coverage.len(), 2);
    assert_eq!(response.coverage[1].start_ms, 60_000);
    assert_eq!(response.server_time_ms, 99);
}
