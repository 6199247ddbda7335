//! The cached record of the latest release, and the decisions it drives:
//! whether to refresh it, whether to offer an update, and whether the last
//! prompted update evidently did nothing.

use vstd::prelude::*;

use crate::text::{str_eq, str_to_string};
use crate::update::UpdateAction;
use crate::worktree::{clone_opt, opt_view};
use crate::worktree_git::opt_eq;

verus! {

/// A notice about a newer release.
#[derive(Clone, Debug, PartialEq, Eq)]
pub enum UpgradeNotice {
    Available(String),
    RemediationNeeded(String),
}

/// An update that the prompt ran and that reported success.
#[derive(Clone, Debug, PartialEq, Eq)]
pub struct SuccessfulPromptUpdate {
    pub from_version: String,
    pub target_version: String,
}

/// The cached release record (`version.json` under the Codex home).
/// `last_checked_at` is in seconds since the Unix epoch.
#[derive(Clone, Debug, PartialEq, Eq)]
pub struct VersionInfo {
    pub latest_version: String,
    pub last_checked_at: i64,
    pub dismissed_version: Option<String>,
    pub successful_prompt_update: Option<SuccessfulPromptUpdate>,
    pub suppressed_version: Option<String>,
}

/// How long a cached release record stays fresh: twenty hours.
pub const REFRESH_INTERVAL_SECS: i64 = 72000;

/// Whether the cached record is missing or older than the refresh interval
/// at `now`.
pub open spec fn needs_refresh_spec(info: Option<VersionInfo>, now: i64) -> bool {
    match info {
        None => true,
        Some(i) => i.last_checked_at < now - REFRESH_INTERVAL_SECS,
    }
}

pub fn needs_version_refresh(info: Option<&VersionInfo>, now: i64) -> (r: bool)
    ensures
        r == needs_refresh_spec(
            match info {
                Some(i) => Some(*i),
                None => None,
            },
            now,
        ),
{
    match info {
        None => true,
        Some(i) => (i.last_checked_at as i128) < (now as i128) - (REFRESH_INTERVAL_SECS as i128),
    }
}

pub open spec fn prompt_update_view(p: Option<SuccessfulPromptUpdate>) -> Option<(Seq<char>, Seq<char>)> {
    match p {
        Some(u) => Some((u.from_version@, u.target_version@)),
        None => None,
    }
}

/// The last prompted update went from this very version to `latest`: the
/// update ran, yet the executable did not change.
pub open spec fn remediation_spec(info: VersionInfo, latest: Seq<char>, current: Seq<char>) -> bool {
    prompt_update_view(info.successful_prompt_update) == Some((current, latest))
}

pub fn should_show_prompt_update_remediation(
    info: &VersionInfo,
    latest: &str,
    current_version: &str,
) -> (r: bool)
    ensures
        r == remediation_spec(*info, latest@, current_version@),
{
    match &info.successful_prompt_update {
        Some(u) => str_eq(u.from_version.as_str(), current_version) && str_eq(
            u.target_version.as_str(),
            latest,
        ),
        None => false,
    }
}

/// The version to offer: the cached latest one, unless it was suppressed or
/// is not newer than the running one (`latest_is_newer`).
pub open spec fn latest_upgrade_spec(info: VersionInfo, latest_is_newer: bool) -> Option<Seq<char>> {
    if opt_view(info.suppressed_version) == Some(info.latest_version@) {
        None
    } else if latest_is_newer {
        Some(info.latest_version@)
    } else {
        None
    }
}

pub fn latest_upgrade_version(info: VersionInfo, latest_is_newer: bool) -> (r: Option<String>)
    ensures
        opt_view(r) == latest_upgrade_spec(info, latest_is_newer),
{
    if opt_eq(&info.suppressed_version, info.latest_version.as_str()) {
        return None;
    }
    if latest_is_newer {
        Some(info.latest_version)
    } else {
        None
    }
}

/// The version the startup check offers: none when checks are off or this is
/// a source build, and otherwise [`latest_upgrade_version`] of the cached
/// record, if there is one.
pub open spec fn upgrade_version_spec(
    check_on_startup: bool,
    source_build: bool,
    info: Option<VersionInfo>,
    latest_is_newer: bool,
) -> Option<Seq<char>> {
    if !check_on_startup || source_build {
        None
    } else {
        match info {
            None => None,
            Some(i) => latest_upgrade_spec(i, latest_is_newer),
        }
    }
}

pub fn upgrade_version(
    check_on_startup: bool,
    source_build: bool,
    info: Option<VersionInfo>,
    latest_is_newer: bool,
) -> (r: Option<String>)
    ensures
        opt_view(r) == upgrade_version_spec(check_on_startup, source_build, info, latest_is_newer),
{
    if !check_on_startup || source_build {
        return None;
    }
    match info {
        None => None,
        Some(i) => latest_upgrade_version(i, latest_is_newer),
    }
}

/// The version for the history banner: `latest`, unless the cached record
/// shows that updating to it already failed to change this executable.
pub open spec fn history_version_spec(
    latest: Option<Seq<char>>,
    info: Option<VersionInfo>,
    current: Seq<char>,
) -> Option<Seq<char>> {
    match latest {
        None => None,
        Some(l) => match info {
            Some(i) => if remediation_spec(i, l, current) {
                None
            } else {
                Some(l)
            },
            None => Some(l),
        },
    }
}

pub fn get_upgrade_version_for_history(
    latest: Option<String>,
    info: Option<&VersionInfo>,
    current_version: &str,
) -> (r: Option<String>)
    ensures
        opt_view(r) == history_version_spec(
            opt_view(latest),
            match info {
                Some(i) => Some(*i),
                None => None,
            },
            current_version@,
        ),
{
    let latest = match latest {
        Some(l) => l,
        None => return None,
    };
    if let Some(i) = info {
        if should_show_prompt_update_remediation(i, latest.as_str(), current_version) {
            return None;
        }
    }
    Some(latest)
}

pub open spec fn notice_view(n: Option<UpgradeNotice>) -> Option<(bool, Seq<char>)> {
    match n {
        None => None,
        Some(UpgradeNotice::Available(v)) => Some((false, v@)),
        Some(UpgradeNotice::RemediationNeeded(v)) => Some((true, v@)),
    }
}

/// The popup notice: nothing when checks are off, this is a source build,
/// there is no version to offer, or the user dismissed exactly this version;
/// a remediation notice when updating to it already failed to change this
/// executable; the plain notice otherwise (also when no record could be read).
/// In the view, `true` marks a remediation notice.
pub open spec fn popup_notice_spec(
    check_on_startup: bool,
    source_build: bool,
    latest: Option<Seq<char>>,
    info: Option<VersionInfo>,
    current: Seq<char>,
) -> Option<(bool, Seq<char>)> {
    if !check_on_startup || source_build {
        None
    } else {
        match latest {
            None => None,
            Some(l) => match info {
                None => Some((false, l)),
                Some(i) => if opt_view(i.dismissed_version) == Some(l) {
                    None
                } else if remediation_spec(i, l, current) {
                    Some((true, l))
                } else {
                    Some((false, l))
                },
            },
        }
    }
}

pub fn get_upgrade_notice_for_popup(
    check_on_startup: bool,
    source_build: bool,
    latest: Option<String>,
    info: Option<&VersionInfo>,
    current_version: &str,
) -> (r: Option<UpgradeNotice>)
    ensures
        notice_view(r) == popup_notice_spec(
            check_on_startup,
            source_build,
            opt_view(latest),
            match info {
                Some(i) => Some(*i),
                None => None,
            },
            current_version@,
        ),
{
    if !check_on_startup || source_build {
        return None;
    }
    let latest = match latest {
        Some(l) => l,
        None => return None,
    };
    let info = match info {
        Some(i) => i,
        None => return Some(UpgradeNotice::Available(latest)),
    };
    if opt_eq(&info.dismissed_version, latest.as_str()) {
        return None;
    }
    if should_show_prompt_update_remediation(info, latest.as_str(), current_version) {
        Some(UpgradeNotice::RemediationNeeded(latest))
    } else {
        Some(UpgradeNotice::Available(latest))
    }
}

/// Records that the prompt ran an update from `current_version` to
/// `target_version` and that it reported success; nothing else changes.
pub fn record_successful_prompt_update_attempt(
    info: &mut VersionInfo,
    current_version: &str,
    target_version: &str,
)
    ensures
        prompt_update_view(final(info).successful_prompt_update) == Some(
            (current_version@, target_version@),
        ),
        final(info).latest_version == old(info).latest_version,
        final(info).last_checked_at == old(info).last_checked_at,
        final(info).dismissed_version == old(info).dismissed_version,
        final(info).suppressed_version == old(info).suppressed_version,
{
    info.successful_prompt_update = Some(
        SuccessfulPromptUpdate {
            from_version: str_to_string(current_version),
            target_version: str_to_string(target_version),
        },
    );
}

/// Records that the user asked not to be reminded of `version` again.
pub fn dismiss_version(info: &mut VersionInfo, version: &str)
    ensures
        opt_view(final(info).dismissed_version) == Some(version@),
        final(info).latest_version == old(info).latest_version,
        final(info).last_checked_at == old(info).last_checked_at,
        final(info).successful_prompt_update == old(info).successful_prompt_update,
        final(info).suppressed_version == old(info).suppressed_version,
{
    info.dismissed_version = Some(str_to_string(version));
}

/// Records that notices for `version` stay hidden after the no-op update
/// was explained once.
pub fn suppress_version_after_remediation(info: &mut VersionInfo, version: &str)
    ensures
        opt_view(final(info).suppressed_version) == Some(version@),
        final(info).latest_version == old(info).latest_version,
        final(info).last_checked_at == old(info).last_checked_at,
        final(info).successful_prompt_update == old(info).successful_prompt_update,
        final(info).dismissed_version == old(info).dismissed_version,
{
    info.suppressed_version = Some(str_to_string(version));
}

fn clone_prompt_update(p: &Option<SuccessfulPromptUpdate>) -> (r: Option<SuccessfulPromptUpdate>)
    ensures
        prompt_update_view(r) == prompt_update_view(*p),
{
    match p {
        Some(u) => Some(
            SuccessfulPromptUpdate {
                from_version: u.from_version.clone(),
                target_version: u.target_version.clone(),
            },
        ),
        None => None,
    }
}

/// The record written after fetching `latest_version` at `now`: the local
/// prompt state (dismissal, last prompted update, suppression) carries over
/// from the previous record, if there was one.
pub fn refreshed_version_info(latest_version: String, now: i64, prev: Option<&VersionInfo>) -> (r:
    VersionInfo)
    ensures
        r.latest_version@ == latest_version@,
        r.last_checked_at == now,
        opt_view(r.dismissed_version) == match prev {
            Some(p) => opt_view(p.dismissed_version),
            None => None,
        },
        prompt_update_view(r.successful_prompt_update) == match prev {
            Some(p) => prompt_update_view(p.successful_prompt_update),
            None => None,
        },
        opt_view(r.suppressed_version) == match prev {
            Some(p) => opt_view(p.suppressed_version),
            None => None,
        },
{
    match prev {
        Some(p) => VersionInfo {
            latest_version,
            last_checked_at: now,
            dismissed_version: clone_opt(&p.dismissed_version),
            successful_prompt_update: clone_prompt_update(&p.successful_prompt_update),
            suppressed_version: clone_opt(&p.suppressed_version),
        },
        None => VersionInfo {
            latest_version,
            last_checked_at: now,
            dismissed_version: None,
            successful_prompt_update: None,
            suppressed_version: None,
        },
    }
}

/// A dismissal holds for exactly the dismissed version: once the record
/// carries the dismissal of `v` (as [`dismiss_version`] leaves it), the popup
/// offers nothing for `v`, while a newer latest version is offered again.
pub proof fn lemma_dismissal_hides_only_that_version(
    check_on_startup: bool,
    source_build: bool,
    info: VersionInfo,
    v: Seq<char>,
    newer: Seq<char>,
    current: Seq<char>,
)
    requires
        opt_view(info.dismissed_version) == Some(v),
        newer != v,
    ensures
        popup_notice_spec(check_on_startup, source_build, Some(v), Some(info), current) is None,
        check_on_startup && !source_build ==> popup_notice_spec(
            check_on_startup,
            source_build,
            Some(newer),
            Some(info),
            current,
        ) is Some,
{
}

/// Suppression after remediation hides exactly the suppressed version: once
/// the record carries the suppression of its latest version (as
/// [`suppress_version_after_remediation`] leaves it), the startup check
/// offers nothing, whether or not that version is newer.
pub proof fn lemma_suppression_hides_latest(
    check_on_startup: bool,
    source_build: bool,
    info: VersionInfo,
    latest_is_newer: bool,
)
    requires
        opt_view(info.suppressed_version) == Some(info.latest_version@),
    ensures
        latest_upgrade_spec(info, latest_is_newer) is None,
        upgrade_version_spec(check_on_startup, source_build, Some(info), latest_is_newer) is None,
{
}

/// A recorded prompt-triggered update to `target` from the running version
/// (as [`record_successful_prompt_update_attempt`] leaves the record) makes
/// the next launch that still runs that version and still sees `target` as
/// latest show the remediation notice instead of the plain one, unless
/// `target` was dismissed, and keeps `target` out of the history banner.
pub proof fn lemma_recorded_update_triggers_remediation(
    info: VersionInfo,
    current: Seq<char>,
    target: Seq<char>,
)
    requires
        prompt_update_view(info.successful_prompt_update) == Some((current, target)),
        opt_view(info.dismissed_version) != Some(target),
    ensures
        remediation_spec(info, target, current),
        popup_notice_spec(true, false, Some(target), Some(info), current) == Some((true, target)),
        history_version_spec(Some(target), Some(info), current) is None,
{
}

/// Where the latest version is looked up for an update action.
#[derive(Clone, Copy, Debug, PartialEq, Eq, Structural)]
pub enum LatestVersionSource {
    /// The Homebrew cask, which may lag behind the release.
    HomebrewCask,
    /// The latest GitHub release, once the npm registry serves it too.
    GithubReleaseOnNpm,
    /// The latest GitHub release.
    GithubRelease,
}

pub fn latest_version_source(action: Option<UpdateAction>) -> (r: LatestVersionSource)
    ensures
        action == Some(UpdateAction::BrewUpgrade) ==> r == LatestVersionSource::HomebrewCask,
        (action == Some(UpdateAction::NpmGlobalLatest) || action == Some(
            UpdateAction::BunGlobalLatest,
        )) ==> r == LatestVersionSource::GithubReleaseOnNpm,
        (action is None || action == Some(UpdateAction::StandaloneUnix) || action == Some(
            UpdateAction::StandaloneWindows,
        )) ==> r == LatestVersionSource::GithubRelease,
{
    match action {
        Some(UpdateAction::BrewUpgrade) => LatestVersionSource::HomebrewCask,
        Some(UpdateAction::NpmGlobalLatest) | Some(UpdateAction::BunGlobalLatest) => {
            LatestVersionSource::GithubReleaseOnNpm
        },
        _ => LatestVersionSource::GithubRelease,
    }
}

} // verus!
