use codex_tui_kit::update::{
    mismatch_from_npm_roots, update_action_status, InstallContext, StandalonePlatform,
    UpdateAction, UpdateActionStatus, UpdateBlocker,
};
use codex_tui_kit::update_notice::{
    get_upgrade_notice_for_popup, get_upgrade_version_for_history, latest_upgrade_version,
    latest_version_source, needs_version_refresh, record_successful_prompt_update_attempt,
    refreshed_version_info, should_show_prompt_update_remediation, LatestVersionSource,
    SuccessfulPromptUpdate, UpgradeNotice, VersionInfo,
};
use codex_tui_kit::update_prompt::{
    update_option_labels, version_change, plan_update_prompt, prompt_outcome, PromptKey, PromptKeyCode, RemediationPromptReason,
    RemediationPromptScreen, UpdatePromptOutcome, UpdatePromptPlan, UpdatePromptScreen,
    UpdateSelection,
};

const CURRENT: &str = "0.50.0";

fn version_info(latest_version: &str) -> VersionInfo {
    VersionInfo {
        latest_version: latest_version.to_string(),
        last_checked_at: 1_700_000_000,
        dismissed_version: None,
        successful_prompt_update: None,
        suppressed_version: None,
    }
}

fn key(code: PromptKeyCode) -> PromptKey {
    PromptKey {
        code,
        control: false,
        release: false,
    }
}

fn new_prompt() -> UpdatePromptScreen {
    UpdatePromptScreen::new(
        "9.9.9".to_string(),
        CURRENT.to_string(),
        UpdateAction::NpmGlobalLatest,
    )
}

#[test]
fn maps_install_context_to_update_action() {
    assert_eq!(UpdateAction::from_install_context(&InstallContext::Other), None);
    assert_eq!(
        UpdateAction::from_install_context(&InstallContext::Npm),
        Some(UpdateAction::NpmGlobalLatest)
    );
    assert_eq!(
        UpdateAction::from_install_context(&InstallContext::Bun),
        Some(UpdateAction::BunGlobalLatest)
    );
    assert_eq!(
        UpdateAction::from_install_context(&InstallContext::Brew),
        Some(UpdateAction::BrewUpgrade)
    );
    assert_eq!(
        UpdateAction::from_install_context(&InstallContext::Standalone {
            platform: StandalonePlatform::Unix,
        }),
        Some(UpdateAction::StandaloneUnix)
    );
    assert_eq!(
        UpdateAction::from_install_context(&InstallContext::Standalone {
            platform: StandalonePlatform::Windows,
        }),
        Some(UpdateAction::StandaloneWindows)
    );
}

#[test]
fn standalone_update_commands_rerun_latest_installer() {
    assert_eq!(
        UpdateAction::StandaloneUnix.command_args(),
        (
            "sh",
            &["-c", "curl -fsSL https://chatgpt.com/codex/install.sh | sh"][..],
        )
    );
    assert_eq!(
        UpdateAction::StandaloneWindows.command_args(),
        (
            "powershell",
            &["-c", "irm https://chatgpt.com/codex/install.ps1|iex"][..],
        )
    );
}

#[test]
fn npm_root_mismatch_is_blocked_when_update_targets_another_install() {
    assert_eq!(
        mismatch_from_npm_roots(
            "/prefix-a/lib/node_modules/@openai/codex",
            "/prefix-b/lib/node_modules",
        ),
        Some(UpdateBlocker::NpmGlobalRootMismatch {
            running_package_root: "/prefix-a/lib/node_modules/@openai/codex".to_string(),
            npm_package_root: "/prefix-b/lib/node_modules/@openai/codex".to_string(),
        })
    );
}

#[test]
fn npm_root_match_keeps_update_available() {
    assert_eq!(
        mismatch_from_npm_roots(
            "/prefix-a/lib/node_modules/@openai/codex",
            "/prefix-a/lib/node_modules",
        ),
        None
    );
}

#[test]
fn npm_root_match_ignores_a_trailing_separator() {
    assert_eq!(
        mismatch_from_npm_roots("/prefix-a/lib/node_modules/@openai/codex/", "/prefix-a/lib/node_modules/"),
        None
    );
}

#[test]
fn command_str_joins_the_shell_words() {
    assert_eq!(
        UpdateAction::NpmGlobalLatest.command_str(),
        "npm install -g @openai/codex@latest"
    );
    assert_eq!(UpdateAction::BrewUpgrade.command_str(), "brew upgrade codex");
    assert_eq!(
        UpdateAction::StandaloneUnix.command_str(),
        "sh -c 'curl -fsSL https://chatgpt.com/codex/install.sh | sh'"
    );
}

#[test]
fn status_is_blocked_only_for_a_mismatched_npm_install() {
    assert_eq!(
        update_action_status(&InstallContext::Other, None),
        UpdateActionStatus::Unavailable
    );
    assert_eq!(
        update_action_status(
            &InstallContext::Brew,
            Some(("/a/lib/node_modules/@openai/codex", "/b/lib/node_modules"))
        ),
        UpdateActionStatus::Ready(UpdateAction::BrewUpgrade)
    );
    assert!(matches!(
        update_action_status(
            &InstallContext::Npm,
            Some(("/a/lib/node_modules/@openai/codex", "/b/lib/node_modules"))
        ),
        UpdateActionStatus::Blocked(_)
    ));
    assert_eq!(
        update_action_status(&InstallContext::Npm, None),
        UpdateActionStatus::Ready(UpdateAction::NpmGlobalLatest)
    );
}

#[test]
fn remediation_lines_name_both_roots() {
    let blocker = UpdateBlocker::NpmGlobalRootMismatch {
        running_package_root: "/a".to_string(),
        npm_package_root: "/b".to_string(),
    };
    assert_eq!(
        blocker.remediation_lines(),
        vec![
            "You are running Codex from:".to_string(),
            "  /a".to_string(),
            "but `npm install -g @openai/codex@latest` would update:".to_string(),
            "  /b".to_string(),
            "Fix your shell PATH or remove the stale Codex install, then restart Codex.".to_string(),
        ]
    );
    assert_eq!(
        blocker.message(),
        "You are running Codex from /a, but `npm install -g @openai/codex@latest` would update /b. Fix your shell PATH or remove the stale Codex install, then restart Codex."
    );
}

#[test]
fn successful_prompt_update_for_current_binary_triggers_remediation() {
    let mut info = version_info("9.9.9");
    info.successful_prompt_update = Some(SuccessfulPromptUpdate {
        from_version: CURRENT.to_string(),
        target_version: "9.9.9".to_string(),
    });

    assert!(should_show_prompt_update_remediation(&info, "9.9.9", CURRENT));
    assert!(!should_show_prompt_update_remediation(&info, "9.9.10", CURRENT));
}

#[test]
fn remediation_suppression_hides_the_same_latest_version() {
    let mut info = version_info("9.9.9");
    info.suppressed_version = Some("9.9.9".to_string());

    assert_eq!(latest_upgrade_version(info, true), None);
}

#[test]
fn newer_latest_version_ignores_stale_remediation_suppression() {
    let mut info = version_info("9.9.10");
    info.suppressed_version = Some("9.9.9".to_string());

    assert_eq!(latest_upgrade_version(info, true), Some("9.9.10".to_string()));
}

#[test]
fn successful_prompt_update_attempt_is_persisted() {
    let mut info = version_info("9.9.9");

    record_successful_prompt_update_attempt(&mut info, CURRENT, "9.9.9");

    assert_eq!(
        info.successful_prompt_update,
        Some(SuccessfulPromptUpdate {
            from_version: CURRENT.to_string(),
            target_version: "9.9.9".to_string(),
        })
    );
    assert_eq!(info.latest_version, "9.9.9");
}

#[test]
fn older_latest_version_offers_nothing() {
    assert_eq!(latest_upgrade_version(version_info("0.1.0"), false), None);
}

#[test]
fn history_banner_skips_a_version_that_already_failed_to_install() {
    let mut info = version_info("9.9.9");
    assert_eq!(
        get_upgrade_version_for_history(Some("9.9.9".to_string()), Some(&info), CURRENT),
        Some("9.9.9".to_string())
    );
    info.successful_prompt_update = Some(SuccessfulPromptUpdate {
        from_version: CURRENT.to_string(),
        target_version: "9.9.9".to_string(),
    });
    assert_eq!(
        get_upgrade_version_for_history(Some("9.9.9".to_string()), Some(&info), CURRENT),
        None
    );
    assert_eq!(get_upgrade_version_for_history(None, Some(&info), CURRENT), None);
}

#[test]
fn popup_respects_dismissal_and_remediation() {
    let mut info = version_info("9.9.9");
    assert_eq!(
        get_upgrade_notice_for_popup(true, false, Some("9.9.9".to_string()), Some(&info), CURRENT),
        Some(UpgradeNotice::Available("9.9.9".to_string()))
    );
    assert_eq!(
        get_upgrade_notice_for_popup(false, false, Some("9.9.9".to_string()), Some(&info), CURRENT),
        None
    );
    assert_eq!(
        get_upgrade_notice_for_popup(true, false, Some("9.9.9".to_string()), None, CURRENT),
        Some(UpgradeNotice::Available("9.9.9".to_string()))
    );
    info.successful_prompt_update = Some(SuccessfulPromptUpdate {
        from_version: CURRENT.to_string(),
        target_version: "9.9.9".to_string(),
    });
    assert_eq!(
        get_upgrade_notice_for_popup(true, false, Some("9.9.9".to_string()), Some(&info), CURRENT),
        Some(UpgradeNotice::RemediationNeeded("9.9.9".to_string()))
    );
    info.dismissed_version = Some("9.9.9".to_string());
    assert_eq!(
        get_upgrade_notice_for_popup(true, false, Some("9.9.9".to_string()), Some(&info), CURRENT),
        None
    );
}

#[test]
fn refresh_is_due_after_twenty_hours() {
    let info = version_info("9.9.9");
    assert!(needs_version_refresh(None, 0));
    assert!(!needs_version_refresh(Some(&info), 1_700_000_000 + 72_000));
    assert!(needs_version_refresh(Some(&info), 1_700_000_000 + 72_001));
}

#[test]
fn refresh_keeps_the_local_prompt_state() {
    let mut prev = version_info("9.9.9");
    prev.dismissed_version = Some("9.9.9".to_string());
    prev.suppressed_version = Some("9.9.8".to_string());
    let next = refreshed_version_info("9.9.10".to_string(), 42, Some(&prev));
    assert_eq!(next.latest_version, "9.9.10");
    assert_eq!(next.last_checked_at, 42);
    assert_eq!(next.dismissed_version, Some("9.9.9".to_string()));
    assert_eq!(next.suppressed_version, Some("9.9.8".to_string()));
}

#[test]
fn brew_installs_check_the_cask() {
    assert_eq!(
        latest_version_source(Some(UpdateAction::BrewUpgrade)),
        LatestVersionSource::HomebrewCask
    );
    assert_eq!(
        latest_version_source(Some(UpdateAction::BunGlobalLatest)),
        LatestVersionSource::GithubReleaseOnNpm
    );
    assert_eq!(latest_version_source(None), LatestVersionSource::GithubRelease);
}

#[test]
fn update_prompt_confirm_selects_update() {
    let mut screen = new_prompt();
    screen.handle_key(key(PromptKeyCode::Enter));
    assert!(screen.is_done());
    assert_eq!(screen.selection(), Some(UpdateSelection::UpdateNow));
}

#[test]
fn update_prompt_dismiss_option_leaves_prompt_in_normal_state() {
    let mut screen = new_prompt();
    screen.handle_key(key(PromptKeyCode::Down));
    screen.handle_key(key(PromptKeyCode::Enter));
    assert!(screen.is_done());
    assert_eq!(screen.selection(), Some(UpdateSelection::NotNow));
}

#[test]
fn update_prompt_dont_remind_selects_dismissal() {
    let mut screen = new_prompt();
    screen.handle_key(key(PromptKeyCode::Down));
    screen.handle_key(key(PromptKeyCode::Down));
    screen.handle_key(key(PromptKeyCode::Enter));
    assert!(screen.is_done());
    assert_eq!(screen.selection(), Some(UpdateSelection::DontRemind));
}

#[test]
fn update_prompt_ctrl_c_skips_update() {
    let mut screen = new_prompt();
    screen.handle_key(PromptKey {
        code: PromptKeyCode::Char('c'),
        control: true,
        release: false,
    });
    assert!(screen.is_done());
    assert_eq!(screen.selection(), Some(UpdateSelection::NotNow));
}

#[test]
fn update_prompt_navigation_wraps_between_entries() {
    let mut screen = new_prompt();
    screen.handle_key(key(PromptKeyCode::Up));
    assert_eq!(screen.highlighted, UpdateSelection::DontRemind);
    screen.handle_key(key(PromptKeyCode::Down));
    assert_eq!(screen.highlighted, UpdateSelection::UpdateNow);
}

#[test]
fn key_releases_and_unknown_keys_change_nothing() {
    let mut screen = new_prompt();
    assert!(!screen.handle_key(PromptKey {
        code: PromptKeyCode::Enter,
        control: false,
        release: true,
    }));
    assert!(!screen.handle_key(key(PromptKeyCode::Char('x'))));
    assert!(!screen.is_done());
    assert!(screen.handle_key(key(PromptKeyCode::Char('3'))));
    assert_eq!(screen.selection(), Some(UpdateSelection::DontRemind));
    assert_eq!(screen.latest_version(), "9.9.9");
}

#[test]
fn selection_moves_are_inverse() {
    for s in [
        UpdateSelection::UpdateNow,
        UpdateSelection::NotNow,
        UpdateSelection::DontRemind,
    ] {
        assert_eq!(s.next().prev(), s);
        assert_eq!(s.prev().next(), s);
        assert_eq!(s.next().next().next(), s);
    }
}

#[test]
fn remediation_prompt_closes_on_enter_or_escape() {
    let mut screen = RemediationPromptScreen::new(RemediationPromptReason::NoOpUpdate {
        latest_version: "9.9.9".to_string(),
    });
    assert!(!screen.handle_key(key(PromptKeyCode::Char('a'))));
    assert!(!screen.is_done());
    assert!(screen.handle_key(key(PromptKeyCode::Esc)));
    assert!(screen.is_done());
}

#[test]
fn no_op_update_explains_itself() {
    let reason = RemediationPromptReason::NoOpUpdate {
        latest_version: "9.9.9".to_string(),
    };
    assert_eq!(
        reason.lines(CURRENT),
        vec![
            "The previous update command completed, but this Codex executable did not change."
                .to_string(),
            "Codex is still running 0.50.0 while 9.9.9 is available.".to_string(),
            "Check which `codex` your shell runs before trying again.".to_string(),
        ]
    );
}

#[test]
fn prompt_plan_follows_the_notice_and_status() {
    assert!(matches!(plan_update_prompt(None, None), UpdatePromptPlan::Continue));
    assert!(matches!(
        plan_update_prompt(
            Some(UpgradeNotice::Available("9.9.9".to_string())),
            Some(UpdateActionStatus::Ready(UpdateAction::BrewUpgrade))
        ),
        UpdatePromptPlan::Ask(ref v, UpdateAction::BrewUpgrade) if v == "9.9.9"
    ));
    assert!(matches!(
        plan_update_prompt(
            Some(UpgradeNotice::Available("9.9.9".to_string())),
            Some(UpdateActionStatus::Unavailable)
        ),
        UpdatePromptPlan::Continue
    ));
    assert!(matches!(
        plan_update_prompt(Some(UpgradeNotice::RemediationNeeded("9.9.9".to_string())), None),
        UpdatePromptPlan::RemediateThenSuppress(RemediationPromptReason::NoOpUpdate { .. }, ref v) if v == "9.9.9"
    ));
}

#[test]
fn prompt_outcome_runs_or_dismisses() {
    let (outcome, dismiss) = prompt_outcome(
        Some(UpdateSelection::UpdateNow),
        UpdateAction::NpmGlobalLatest,
        "9.9.9".to_string(),
        "/home/me/.codex/version.json".to_string(),
    );
    assert!(matches!(outcome, UpdatePromptOutcome::RunUpdate(ref p) if p.target_version == "9.9.9"));
    assert_eq!(dismiss, None);
    let (outcome, dismiss) = prompt_outcome(
        Some(UpdateSelection::DontRemind),
        UpdateAction::NpmGlobalLatest,
        "9.9.9".to_string(),
        String::new(),
    );
    assert!(matches!(outcome, UpdatePromptOutcome::Continue));
    assert_eq!(dismiss, Some("9.9.9".to_string()));
}

#[test]
fn update_prompt_text() {
    assert_eq!(version_change("0.1.0", "0.2.0"), "0.1.0 -> 0.2.0");
    assert_eq!(
        update_option_labels("npm install -g @openai/codex"),
        vec![
            "Update now (runs `npm install -g @openai/codex`)".to_string(),
            "Skip".to_string(),
            "Skip until next version".to_string(),
        ]
    );
}

#[test]
fn dismissing_and_suppressing_hide_the_version() {
    let mut info = VersionInfo {
        latest_version: "9.9.9".to_string(),
        last_checked_at: 0,
        dismissed_version: None,
        successful_prompt_update: None,
        suppressed_version: None,
    };
    codex_tui_kit::update_notice::dismiss_version(&mut info, "9.9.9");
    assert_eq!(
        get_upgrade_notice_for_popup(true, false, Some("9.9.9".to_string()), Some(&info), "1.0.0"),
        None
    );
    assert_eq!(
        get_upgrade_notice_for_popup(true, false, Some("9.9.10".to_string()), Some(&info), "1.0.0"),
        Some(UpgradeNotice::Available("9.9.10".to_string()))
    );
    codex_tui_kit::update_notice::suppress_version_after_remediation(&mut info, "9.9.9");
    assert_eq!(latest_upgrade_version(info.clone(), true), None);
}
