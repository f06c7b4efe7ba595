use on_air_record::models::update::{
    channel_from_config, default_channel, detect_install, newer_releases, Channel, InstallKind,
    Release, Version,
};

fn release(tag: &str, prerelease: bool) -> Release {
    Release {
        tag: tag.to_string(),
        prerelease,
        draft: false,
        published_at_ms: Some(0),
        notes: format!("notes for {tag}"),
        url: format!("https://example.com/{tag}"),
    }
}

fn version(text: &str) -> Version {
    Version::parse(text).expect("a version")
}

#[test]
fn versions_parse_in_the_shapes_the_project_uses() {
    assert_eq!(
        Version::parse("0.6.0"),
        Some(Version {
            major: 0,
            minor: 6,
            patch: 0,
            beta: None
        })
    );
    assert_eq!(version("v0.6.0-beta.2").beta, Some(2));
    assert_eq!(version(" v1.2.3 "), version("1.2.3"));
}

#[test]
fn anything_else_is_not_a_version() {
    for text in [
        "",
        "v",
        "0.6",
        "0.6.0.1",
        "0.6.0-rc.1",
        "0.6.0-beta",
        "latest",
        "v0.x.0",
    ] {
        assert_eq!(Version::parse(text), None, "{text}");
    }
}

#[test]
fn a_beta_comes_before_its_release_and_after_the_one_before() {
    let mut ordered = [
        version("0.6.0"),
        version("0.5.1"),
        version("0.6.0-beta.2"),
        version("0.6.0-beta.10"),
        version("0.6.0-beta.1"),
        version("0.10.0"),
    ];
    ordered.sort_by(|a, b| a.cmp(b));
    let tags: Vec<String> = ordered
        .iter()
        .map(|v| match v.beta {
            Some(beta) => format!("{}.{}.{}-beta.{beta}", v.major, v.minor, v.patch),
            None => format!("{}.{}.{}", v.major, v.minor, v.patch),
        })
        .collect();
    assert_eq!(
        tags,
        [
            "0.5.1",
            "0.6.0-beta.1",
            "0.6.0-beta.2",
            "0.6.0-beta.10",
            "0.6.0",
            "0.10.0"
        ]
    );
}

#[test]
fn stable_sees_only_newer_stable_releases_newest_first() {
    let releases = [
        release("v0.7.0-beta.1", true),
        release("v0.6.1", false),
        release("v0.6.0", false),
        release("v0.5.0", false),
        release("v0.7.0", false),
    ];
    let offered = newer_releases(&version("0.6.0"), Channel::Stable, &releases);
    let tags: Vec<&str> = offered.iter().map(|r| r.tag.as_str()).collect();
    assert_eq!(tags, ["v0.7.0", "v0.6.1"]);
}

#[test]
fn beta_sees_betas_and_stable_releases() {
    let releases = [release("v0.7.0-beta.1", true), release("v0.6.1", false)];
    let offered = newer_releases(&version("0.6.0"), Channel::Beta, &releases);
    let tags: Vec<&str> = offered.iter().map(|r| r.tag.as_str()).collect();
    assert_eq!(tags, ["v0.7.0-beta.1", "v0.6.1"]);
}

#[test]
fn a_beta_build_is_offered_the_release_it_previews() {
    let releases = [release("v0.6.0", false), release("v0.6.0-beta.1", true)];
    let offered = newer_releases(&version("0.6.0-beta.1"), Channel::Beta, &releases);
    assert_eq!(offered.len(), 1);
    assert_eq!(offered[0].tag, "v0.6.0");
}

#[test]
fn drafts_odd_tags_and_mislabelled_betas_are_never_offered() {
    let mut draft = release("v0.9.0", false);
    draft.draft = true;
    let releases = [
        draft,
        release("nightly", false),
        // A beta version published without the pre-release flag: still not for stable.
        release("v0.8.0-beta.1", false),
    ];
    assert!(newer_releases(&version("0.6.0"), Channel::Stable, &releases).is_empty());
}

#[test]
fn nothing_is_offered_when_up_to_date() {
    let releases = [release("v0.6.0", false), release("v0.5.0", false)];
    assert!(newer_releases(&version("0.6.0"), Channel::Stable, &releases).is_empty());
}

#[test]
fn a_beta_build_follows_betas_unless_told_otherwise() {
    assert_eq!(default_channel(&version("0.6.0-beta.1")), Channel::Beta);
    assert_eq!(default_channel(&version("0.6.0")), Channel::Stable);
}

#[test]
fn the_installer_config_names_the_channel() {
    let config = "OAR_PORT=8080\nOAR_HOST=0.0.0.0\nOAR_CHANNEL=beta\n";
    assert_eq!(channel_from_config(config), Some(Channel::Beta));
    assert_eq!(
        channel_from_config("OAR_CHANNEL=stable"),
        Some(Channel::Stable)
    );
    // The last line wins, as it would when the shell sources the file.
    assert_eq!(
        channel_from_config("OAR_CHANNEL=beta\nOAR_CHANNEL=stable"),
        Some(Channel::Stable)
    );
    assert_eq!(channel_from_config("OAR_PORT=8080"), None);
    assert_eq!(channel_from_config("OAR_CHANNEL=nightly"), None);
}

#[test]
fn the_install_kind_is_read_from_what_the_process_can_see() {
    let dir = "/home/me/on-air-record";

    assert_eq!(
        detect_install(Some("abc123"), Some(dir), false),
        InstallKind::Systemd
    );
    assert_eq!(detect_install(None, Some(dir), false), InstallKind::Manual);
    assert_eq!(detect_install(None, None, false), InstallKind::Manual);

    // Once a start script sits in the folder.
    assert_eq!(
        detect_install(None, Some(dir), true),
        InstallKind::Installer {
            dir: dir.to_string()
        }
    );
    // systemd wins: a unit may well run a program that sits in an installer folder.
    assert_eq!(
        detect_install(Some("abc123"), Some(dir), true),
        InstallKind::Systemd
    );
    assert_eq!(
        detect_install(Some(""), Some(dir), true),
        detect_install(None, Some(dir), true)
    );
}

#[test]
fn a_beta_is_newer_than_the_release_before_and_older_than_its_own() {
    assert!(version("0.6.0-beta.1").is_newer_than(&version("0.5.9")));
    assert!(version("0.6.0").is_newer_than(&version("0.6.0-beta.7")));
    assert!(!version("0.6.0").is_newer_than(&version("0.6.0")));
    assert!(version("0.6.0-beta.2").is_beta());
    assert!(!version("0.6.0").is_beta());
}
