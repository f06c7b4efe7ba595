//! Update notice payloads.

use crate::models::update::{Channel, InstallKind, Release};
use crate::util::text::{
    chars_of, extend_chars, string_from_chars, trim_start_matches, trim_start_matches_spec,
};
use vstd::prelude::*;

verus! {

#[derive(Debug)]
pub struct UpdateStatusResponse {
    pub current_version: String,
    pub channel: Channel,
    /// Whether the service checks by itself every few hours.
    pub automatic: bool,
    pub checked_at_ms: Option<i64>,
    pub error: Option<String>,
    /// The release to update to, when there is one: the newest on this channel.
    pub available: Option<ReleaseDto>,
    /// Every newer release, newest first, so What's new covers everything skipped.
    pub releases: Vec<ReleaseDto>,
    pub install: InstallDto,
    /// The page listing every release.
    pub releases_url: String,
}

#[derive(Debug)]
pub struct ReleaseDto {
    /// Without the leading `v`, as the service reports its own version.
    pub version: String,
    pub tag: String,
    pub prerelease: bool,
    pub published_at_ms: Option<i64>,
    /// The release notes as written on the release, in Markdown.
    pub notes: String,
    pub url: String,
}

/// `dto` is `release` as the page shows it.
pub open spec fn shows(dto: ReleaseDto, release: Release) -> bool {
    &&& dto.version@ == trim_start_matches_spec(release.tag@, 'v')
    &&& dto.tag == release.tag
    &&& dto.prerelease == release.prerelease
    &&& dto.published_at_ms == release.published_at_ms
    &&& dto.notes == release.notes
    &&& dto.url == release.url
}

impl Clone for ReleaseDto {
    fn clone(&self) -> (copy: Self)
        ensures
            copy == *self,
    {
        ReleaseDto {
            version: self.version.clone(),
            tag: self.tag.clone(),
            prerelease: self.prerelease,
            published_at_ms: self.published_at_ms,
            notes: self.notes.clone(),
            url: self.url.clone(),
        }
    }
}

impl ReleaseDto {
    /// A release as the page shows it: its version is the tag without the leading `v`.
    pub fn from_release(release: Release) -> (dto: Self)
        ensures
            shows(dto, release),
    {
        let tag = chars_of(release.tag.as_str());
        let version = trim_start_matches(tag.as_slice(), 'v');
        ReleaseDto {
            version: string_from_chars(version.as_slice()),
            tag: release.tag,
            prerelease: release.prerelease,
            published_at_ms: release.published_at_ms,
            notes: release.notes,
            url: release.url,
        }
    }
}

#[derive(Debug)]
pub struct InstallDto {
    /// `installer`, `systemd` or `manual`.
    pub kind: &'static str,
    /// The installer folder, when there is one.
    pub dir: Option<String>,
    /// `linux`, `macos` or `windows`, which picks the installer and the commands to show.
    pub os: &'static str,
    /// The target triple this program was built for, which names its download.
    pub target: &'static str,
}

/// The name the page knows an install kind by.
pub open spec fn install_kind_name(install: InstallKind) -> Seq<char> {
    match install {
        InstallKind::Installer { .. } => "installer"@,
        InstallKind::Systemd => "systemd"@,
        InstallKind::Manual => "manual"@,
    }
}

impl InstallDto {
    /// How this program was installed, for the page to show the matching update steps.
    pub fn describe(install: InstallKind, os: &'static str, target: &'static str) -> (dto: Self)
        ensures
            dto.kind@ == install_kind_name(install),
            dto.dir == match install {
                InstallKind::Installer { dir } => Some(dir),
                _ => None::<String>,
            },
            dto.os == os,
            dto.target == target,
    {
        let (kind, dir) = match install {
            InstallKind::Installer { dir } => ("installer", Some(dir)),
            InstallKind::Systemd => ("systemd", None),
            InstallKind::Manual => ("manual", None),
        };
        InstallDto { kind, dir, os, target }
    }
}

/// What the update checker knows: the running version, the channel it follows, whether it checks by
/// itself, how the last check went, every newer release newest first, and how this program was
/// installed.
pub struct UpdateStatus {
    pub current: String,
    pub channel: Channel,
    pub automatic: bool,
    pub checked_at_ms: Option<i64>,
    pub error: Option<String>,
    pub newer: Vec<Release>,
    pub install: InstallKind,
    pub target: &'static str,
}

/// The page that lists every release of `repository`.
pub open spec fn releases_page(repository: Seq<char>) -> Seq<char> {
    "https://github.com/"@ + repository + "/releases"@
}

impl UpdateStatusResponse {
    /// The update notice: every newer release, newest first, and the newest of them as the one to
    /// install, if there is any.
    pub fn from_status(status: UpdateStatus, os: &'static str, repository: &str) -> (response: Self)
        ensures
            response.current_version == status.current,
            response.channel == status.channel,
            response.automatic == status.automatic,
            response.checked_at_ms == status.checked_at_ms,
            response.error == status.error,
            response.releases@.len() == status.newer@.len(),
            forall|i: int|
                0 <= i < status.newer@.len() ==> shows(#[trigger] response.releases@[i], status.newer@[i]),
            status.newer@.len() == 0 ==> response.available is None,
            status.newer@.len() > 0 ==> (response.available matches Some(newest) && shows(
                newest,
                status.newer@[0],
            )),
            response.install.kind@ == install_kind_name(status.install),
            response.install.dir == match status.install {
                InstallKind::Installer { dir } => Some(dir),
                _ => None::<String>,
            },
            response.install.os == os,
            response.install.target == status.target,
            response.releases_url@ == releases_page(repository@),
    {
        let mut releases: Vec<ReleaseDto> = Vec::new();
        let mut i: usize = 0;
        while i < status.newer.len()
            invariant
                i <= status.newer@.len(),
                releases@.len() == i,
                forall|j: int| 0 <= j < i ==> shows(#[trigger] releases@[j], status.newer@[j]),
            decreases status.newer@.len() - i,
        {
            let release = status.newer[i].clone();
            releases.push(ReleaseDto::from_release(release));
            i = i + 1;
        }
        let available = if releases.len() > 0 {
            Some(releases[0].clone())
        } else {
            None
        };
        let mut url: Vec<char> = Vec::new();
        let start = chars_of("https://github.com/");
        extend_chars(&mut url, start.as_slice());
        let name = chars_of(repository);
        extend_chars(&mut url, name.as_slice());
        let end = chars_of("/releases");
        extend_chars(&mut url, end.as_slice());
        let UpdateStatus { current, channel, automatic, checked_at_ms, error, newer: _, install, target } =
            status;
        UpdateStatusResponse {
            current_version: current,
            channel,
            automatic,
            checked_at_ms,
            error,
            available,
            releases,
            install: InstallDto::describe(install, os, target),
            releases_url: string_from_chars(url.as_slice()),
        }
    }
}

} // verus!
