use codex_tui_kit::worktree::{
    DirtyPolicy, DirtyState, WorktreeInfo, WorktreeListQuery, WorktreeLocation, WorktreeMetadata,
    WorktreeSource,
};
use codex_tui_kit::worktree_flow::{
    creating_status, dirty_policy_options, dirty_policy_step, picker_content, picker_row,
    remote_unsupported_error, remove_confirmation_title, removal_step, removed_message,
    switch_plan, switch_step, switch_target, switching_status, worktree_error_message,
    DirtyPolicyStep, PickerContent, RemovalStep, SwitchAction, SwitchEvent, SwitchPlan,
    SwitchStage,
};
use codex_tui_kit::worktree_git::{
    ensure_existing_worktree_matches_branch, ensure_safe_relative_path, parse_worktree_list,
    paths_from_nul_separated,
    primary_worktree_root, relative_cwd,
};
use codex_tui_kit::worktree_manager::{
    check_reuse_existing_worktree, created_worktree_info, ensure_worktree_target,
    info_from_existing_worktree, plan_new_worktree, ExistingWorktreeFacts, SourceRepoFacts,
    WorktreeTarget,
};
use codex_tui_kit::worktree_listing::{
    listing_source, path_sort_key, select_listed, sorted_unique_paths, worktree_listing_order,
};
use codex_tui_kit::worktree_paths::{sanitize_branch_for_path, sibling_worktree_git_root};

fn info(branch: Option<&str>, source: WorktreeSource, dirty: bool) -> WorktreeInfo {
    WorktreeInfo {
        id: "abc123".to_string(),
        name: "feature-auth".to_string(),
        slug: "feature-auth".to_string(),
        source,
        location: WorktreeLocation::Sibling,
        repo_name: "codex".to_string(),
        repo_root: "/repo".to_string(),
        common_git_dir: "/repo/.git".to_string(),
        worktree_git_root: "/repo.feature-auth".to_string(),
        workspace_cwd: "/repo.feature-auth/tui".to_string(),
        original_relative_cwd: "tui".to_string(),
        branch: branch.map(str::to_string),
        head: None,
        owner_thread_id: None,
        metadata_path: "/repo/.git/worktrees/x/codex-worktree.json".to_string(),
        dirty: DirtyState {
            has_staged_changes: false,
            has_unstaged_changes: dirty,
            has_untracked_files: false,
        },
    }
}

fn metadata(branch: &str) -> WorktreeMetadata {
    WorktreeMetadata {
        version: 1,
        manager: "codex".to_string(),
        backend: "git".to_string(),
        source: WorktreeSource::Cli,
        location: WorktreeLocation::Sibling,
        id: "abc".to_string(),
        name: branch.to_string(),
        slug: "feature-foo".to_string(),
        branch: Some(branch.to_string()),
        repo_id: "abc".to_string(),
        repo_name: "repo".to_string(),
        source_repo_root: "/work/repo".to_string(),
        original_relative_cwd: String::new(),
        worktree_git_root: "/work/repo.feature-foo".to_string(),
        workspace_cwd: "/work/repo.feature-foo".to_string(),
        created_at: 1,
        updated_at: 1,
        owner_thread_id: None,
        tmux_session: None,
    }
}

#[test]
fn creates_sibling_from_sibling_using_primary_repo_name() {
    let entries = parse_worktree_list(
        "worktree /work/repo\nHEAD abc\nbranch refs/heads/main\n\nworktree /work/repo.fcoury-worktrees\nHEAD def\nbranch refs/heads/fcoury/worktrees\n",
    );
    let primary = primary_worktree_root(&entries).expect("primary worktree");
    assert_eq!(primary, "/work/repo");
    assert_eq!(
        sibling_worktree_git_root(&primary, "fcoury/test"),
        Ok("/work/repo.fcoury-test".to_string())
    );
}

#[test]
fn refuses_sibling_path_collision_for_different_branch() {
    assert_eq!(
        sibling_worktree_git_root("/work/repo", "feature/foo"),
        sibling_worktree_git_root("/work/repo", "feature-foo")
    );
    let err = ensure_existing_worktree_matches_branch(
        "/work/repo.feature-foo",
        &metadata("feature/foo"),
        "feature-foo",
        &Some("feature/foo".to_string()),
    )
    .expect_err("sanitized branch path collision should fail");
    assert!(err.contains("already used by feature/foo"), "{err}");
    assert_eq!(
        ensure_existing_worktree_matches_branch(
            "/work/repo.feature-foo",
            &metadata("feature/foo"),
            "feature/foo",
            &None,
        ),
        Ok(())
    );
}

#[test]
fn relative_cwd_is_the_part_below_the_checkout() {
    assert_eq!(relative_cwd("/work/repo/codex-rs/tui", "/work/repo"), "codex-rs/tui");
    assert_eq!(relative_cwd("/work/repo", "/work/repo"), "");
    assert_eq!(relative_cwd("/elsewhere", "/work/repo"), "");
    assert_eq!(primary_worktree_root(&[]), None);
}

#[test]
fn picker_rows_describe_each_worktree() {
    let row = picker_row(&info(Some("feature/auth"), WorktreeSource::Cli, true));
    assert_eq!(row.target, "feature/auth");
    assert_eq!(row.description, "dirty · cli · /repo.feature-auth/tui");
    assert_eq!(row.selected_description, "Fork this chat into /repo.feature-auth/tui");
    assert_eq!(
        row.search_value,
        "feature/auth feature-auth cli /repo.feature-auth/tui"
    );
    let unnamed = picker_row(&info(None, WorktreeSource::App, false));
    assert_eq!(unnamed.target, "feature-auth");
    assert_eq!(unnamed.description, "clean · app · /repo.feature-auth/tui");
}

#[test]
fn new_worktree_dirty_policy_choices() {
    let options = dirty_policy_options();
    assert_eq!(
        options.iter().map(|(name, _, policy)| (*name, *policy)).collect::<Vec<_>>(),
        vec![
            ("Fail", DirtyPolicy::Fail),
            ("Ignore", DirtyPolicy::Ignore),
            ("Copy tracked", DirtyPolicy::CopyTracked),
            ("Copy all", DirtyPolicy::CopyAll),
        ]
    );
    assert_eq!(options[2].1, "Copy staged and unstaged tracked changes.");
}

#[test]
fn dirty_policy_step_asks_only_for_a_dirty_checkout() {
    let clean = DirtyState::default();
    let dirty = DirtyState {
        has_staged_changes: true,
        has_unstaged_changes: false,
        has_untracked_files: false,
    };
    assert_eq!(
        dirty_policy_step(Some(DirtyPolicy::CopyAll), Ok(dirty)),
        DirtyPolicyStep::Use(DirtyPolicy::CopyAll)
    );
    assert_eq!(dirty_policy_step(None, Ok(dirty)), DirtyPolicyStep::Ask);
    assert_eq!(
        dirty_policy_step(None, Ok(clean)),
        DirtyPolicyStep::Use(DirtyPolicy::Fail)
    );
    assert_eq!(
        dirty_policy_step(None, Err("not a git repository".to_string())),
        DirtyPolicyStep::Fail("Failed to inspect source checkout: not a git repository".to_string())
    );
}

#[test]
fn removal_only_for_cli_worktrees_and_after_confirmation() {
    assert_eq!(
        removal_step(WorktreeSource::App, "feature", false),
        RemovalStep::Refuse(
            "Refusing to remove app worktree 'feature'. Only Codex CLI-managed worktrees can be removed."
                .to_string()
        )
    );
    assert_eq!(removal_step(WorktreeSource::Cli, "feature", false), RemovalStep::Confirm);
    assert_eq!(removal_step(WorktreeSource::Cli, "feature", true), RemovalStep::Remove);
    assert_eq!(
        removed_message("/repo.feature", &Some("feature".to_string())),
        "Removed worktree /repo.feature and deleted branch feature"
    );
    assert_eq!(removed_message("/repo.feature", &None), "Removed worktree /repo.feature");
    assert_eq!(remove_confirmation_title("feature"), "Remove worktree feature?");
}

#[test]
fn flow_messages_and_plans() {
    assert_eq!(
        remote_unsupported_error(),
        "/worktree is not supported for remote sessions yet."
    );
    assert_eq!(switching_status("feature"), "Switching to feature...");
    assert_eq!(creating_status("feature"), "Creating feature...");
    assert_eq!(
        worktree_error_message("Failed to list worktrees.", "boom"),
        "Failed to list worktrees. boom"
    );
    assert_eq!(switch_plan(true), SwitchPlan::ForkCurrentThread);
    assert_eq!(switch_plan(false), SwitchPlan::StartNewThread);
    assert_eq!(
        switch_target(&info(Some("feature/auth"), WorktreeSource::Cli, false)),
        "feature/auth"
    );
    assert_eq!(picker_content(&Ok(Vec::new())), PickerContent::Empty);
    assert_eq!(
        picker_content(&Ok(vec![info(None, WorktreeSource::Git, false)])),
        PickerContent::Entries
    );
    assert_eq!(
        picker_content(&Err("boom".to_string())),
        PickerContent::Error("boom".to_string())
    );
    assert_eq!(sanitize_branch_for_path("a/b"), Ok("a-b".to_string()));
}

#[test]
fn worktree_target_is_a_sibling_of_the_primary_checkout() {
    let target = ensure_worktree_target("feature/Auth", "/work/repo", "codex-rs", true).expect("target");
    assert_eq!(target.slug, "feature-auth");
    assert_eq!(target.worktree_git_root, "/work/repo.feature-Auth");
    assert_eq!(target.workspace_cwd, "/work/repo.feature-Auth/codex-rs");
    assert_eq!(
        ensure_worktree_target("!!!", "/work/repo", "", true),
        Err("worktree name must contain at least one ASCII letter or digit".to_string())
    );
    assert_eq!(
        ensure_worktree_target("feature", "/work/repo", "", false),
        Err("invalid branch name".to_string())
    );
}

#[test]
fn existing_worktree_is_reused_only_when_codex_owns_it() {
    let err = check_reuse_existing_worktree("/work/repo.feature", None, "feature", &None)
        .expect_err("unowned path");
    assert!(err.contains("already exists but is not owned by Codex"), "{err}");
    assert_eq!(
        check_reuse_existing_worktree(
            "/work/repo.feature-foo",
            Some(&metadata("feature/foo")),
            "feature/foo",
            &None
        ),
        Ok(())
    );
}

#[test]
fn new_worktree_plan_checks_checkout_and_dirty_state() {
    let clean = DirtyState::default();
    let (args, warnings) = plan_new_worktree(
        "/work/repo.feature",
        "feature",
        None,
        &clean,
        DirtyPolicy::Fail,
        false,
        None,
        true,
    )
    .expect("plan");
    assert_eq!(
        args,
        vec!["worktree", "add", "-b", "feature", "/work/repo.feature", "HEAD"]
    );
    assert!(warnings.is_empty());
    let err = plan_new_worktree(
        "/work/repo.feature",
        "feature",
        Some("/elsewhere"),
        &clean,
        DirtyPolicy::Fail,
        true,
        None,
        true,
    )
    .expect_err("checked out elsewhere");
    assert!(err.contains("already checked out at /elsewhere"), "{err}");
}

#[test]
fn info_from_existing_worktree_without_metadata() {
    let info = info_from_existing_worktree(
        ExistingWorktreeFacts {
            worktree_git_root: "/home/me/.codex/worktrees/7f6e/repo".to_string(),
            root: "/home/me/.codex/worktrees/7f6e/repo".to_string(),
            common_git_dir: "/work/repo/.git".to_string(),
            branch: Some("app/branch".to_string()),
            head: Some("abc".to_string()),
            dirty: DirtyState::default(),
            metadata: None,
            is_managed_path: true,
            worktrees_root: "/home/me/.codex/worktrees".to_string(),
            metadata_path: "/work/repo/.git/worktrees/repo/codex-worktree.json".to_string(),
        },
        None,
        None,
    );
    assert_eq!(info.id, "7f6e");
    assert_eq!(info.name, "app/branch");
    assert_eq!(info.slug, "app-branch");
    assert_eq!(info.source, WorktreeSource::App);
    assert_eq!(info.location, WorktreeLocation::CodexHome);
    assert_eq!(info.repo_name, "repo");
    assert_eq!(info.workspace_cwd, "/home/me/.codex/worktrees/7f6e/repo");
    assert_eq!(info.original_relative_cwd, "");
}

#[test]
fn nul_separated_listing_drops_empty_entries() {
    assert_eq!(
        paths_from_nul_separated("a.txt\0dir/b.txt\0\0"),
        vec!["a.txt".to_string(), "dir/b.txt".to_string()]
    );
    assert!(paths_from_nul_separated("").is_empty());
}

fn strings(values: &[&str]) -> Vec<String> {
    values.iter().map(|v| v.to_string()).collect()
}

#[test]
fn worktree_listing_keeps_one_entry_per_checkout_sorted_by_name_then_path() {
    let names = strings(&["b", "a", "a", "c"]);
    let roots = strings(&["/x/b", "/x/a-b", "/x/a/b", "/y"]);
    let canonical = strings(&["/x/b", "/x/a-b", "/x/a/b", "/x/b"]);
    assert_eq!(worktree_listing_order(&names, &roots, &canonical), vec![2, 1, 0]);
    assert!(worktree_listing_order(&[], &[], &[]).is_empty());
    let same = strings(&["a", "a"]);
    let same_roots = strings(&["/r", "/r"]);
    let distinct = strings(&["/r1", "/r2"]);
    assert_eq!(worktree_listing_order(&same, &same_roots, &distinct), vec![0, 1]);
}

#[test]
fn paths_sort_component_by_component() {
    assert!(path_sort_key("/x/a/b") < path_sort_key("/x/a-b"));
    assert_eq!(
        path_sort_key("/x/a").into_iter().collect::<String>(),
        "/\0x\0a\0"
    );
}

#[test]
fn tracked_paths_are_sorted_and_unique() {
    let paths = strings(&["b.txt", "a/b.txt", "a-b.txt", "b.txt", "a/b.txt"]);
    assert_eq!(
        sorted_unique_paths(&paths),
        strings(&["a/b.txt", "a-b.txt", "b.txt"])
    );
}

#[test]
fn untracked_copies_stay_inside_the_checkout() {
    assert_eq!(ensure_safe_relative_path("src/lib.rs"), Ok(()));
    assert_eq!(
        ensure_safe_relative_path("/etc/passwd"),
        Err("refusing to copy absolute untracked path /etc/passwd".to_string())
    );
    assert_eq!(
        ensure_safe_relative_path("../outside"),
        Err("refusing to copy unsafe untracked path ../outside".to_string())
    );
    assert_eq!(
        ensure_safe_relative_path("sub/.git/config"),
        Err("refusing to copy unsafe untracked path sub/.git/config".to_string())
    );
}

#[test]
fn switching_forks_the_current_thread_or_starts_a_new_one() {
    let step = switch_step(
        SwitchStage::RebuildingConfig,
        SwitchEvent::ConfigRebuilt {
            has_current_thread: true,
        },
    );
    assert_eq!(step.next, SwitchStage::Forking);
    assert_eq!(step.actions, vec![SwitchAction::ForkThread]);
    let step = switch_step(SwitchStage::Forking, SwitchEvent::Forked);
    assert_eq!(step.next, SwitchStage::Attaching);
    assert_eq!(
        step.actions,
        vec![
            SwitchAction::ShutdownCurrentThread,
            SwitchAction::InstallConfig,
            SwitchAction::AttachThread
        ]
    );
    let step = switch_step(SwitchStage::Attaching, SwitchEvent::Attached);
    assert_eq!(step.next, SwitchStage::Done);
    assert_eq!(step.actions, vec![SwitchAction::RequestFrame]);

    let step = switch_step(
        SwitchStage::RebuildingConfig,
        SwitchEvent::ConfigRebuilt {
            has_current_thread: false,
        },
    );
    assert_eq!(step.next, SwitchStage::Starting);
    assert_eq!(step.actions[2], SwitchAction::StartThread);
    let failed = switch_step(SwitchStage::Starting, SwitchEvent::StartFailed);
    assert_eq!(failed.next, SwitchStage::Done);
    assert_eq!(failed.error_summary, Some("Failed to start session in worktree."));

    let config_failed = switch_step(SwitchStage::RebuildingConfig, SwitchEvent::ConfigFailed);
    assert_eq!(config_failed.actions, vec![SwitchAction::ShowError]);
    assert_eq!(
        config_failed.error_summary,
        Some("Failed to rebuild configuration for worktree.")
    );
    let ignored = switch_step(SwitchStage::Done, SwitchEvent::Attached);
    assert_eq!(ignored.next, SwitchStage::Done);
    assert!(ignored.actions.is_empty());
}

fn listed(id: &str, branch: &str, root: &str) -> WorktreeInfo {
    let mut entry = info(Some(branch), WorktreeSource::Cli, false);
    entry.id = id.to_string();
    entry.worktree_git_root = root.to_string();
    entry
}

#[test]
fn listing_filters_by_repo_then_keeps_one_per_checkout_sorted() {
    let entries = vec![
        listed("repo", "zeta", "/w/zeta"),
        listed("other", "alpha", "/w/alpha"),
        listed("repo", "beta", "/w/beta-link"),
        listed("repo", "beta", "/w/beta"),
        listed("other", "gamma", "/w/gamma"),
    ];
    let canonical = strings(&["/w/zeta", "/w/alpha", "/w/beta", "/w/beta", "/w/gamma"]);
    let same = [false, false, false, false, true];
    // One repository: its id or its common Git directory; the symlinked
    // checkout of beta comes first and stands for it.
    assert_eq!(select_listed(&entries, Some("repo"), &same, &canonical), vec![2, 4, 0]);
    // Every repository.
    assert_eq!(select_listed(&entries, None, &same, &canonical), vec![1, 2, 4, 0]);
    assert!(select_listed(&[], Some("repo"), &[], &[]).is_empty());
}

#[test]
fn listing_needs_a_source_unless_listing_every_repo() {
    let query = |source: Option<&str>, all: bool| WorktreeListQuery {
        codex_home: "/home/.codex".to_string(),
        source_cwd: source.map(str::to_string),
        include_all_repos: all,
    };
    assert_eq!(listing_source(&query(None, true)), Ok(None));
    assert_eq!(listing_source(&query(Some("/repo"), true)), Ok(None));
    assert_eq!(listing_source(&query(Some("/repo"), false)), Ok(Some("/repo".to_string())));
    assert_eq!(
        listing_source(&query(None, false)),
        Err("source cwd is required unless include_all_repos is true".to_string())
    );
}

#[test]
fn a_created_worktree_is_a_cli_sibling_named_after_its_branch() {
    let dirty = DirtyState {
        has_staged_changes: true,
        has_unstaged_changes: false,
        has_untracked_files: false,
    };
    let info = created_worktree_info(
        SourceRepoFacts {
            id: "abc123".to_string(),
            repo_name: "codex".to_string(),
            root: "/repo".to_string(),
            common_git_dir: "/repo/.git".to_string(),
            relative_cwd: "tui".to_string(),
        },
        "feature/auth".to_string(),
        WorktreeTarget {
            slug: "feature-auth".to_string(),
            worktree_git_root: "/repo.feature-auth".to_string(),
            workspace_cwd: "/repo.feature-auth/tui".to_string(),
        },
        Some("deadbeef".to_string()),
        "/repo/.git/worktrees/x/codex-worktree.json".to_string(),
        dirty,
    );
    let mut expected = info_sample();
    expected.name = "feature/auth".to_string();
    expected.branch = Some("feature/auth".to_string());
    expected.head = Some("deadbeef".to_string());
    expected.dirty = dirty;
    assert_eq!(info, expected);
}

fn info_sample() -> WorktreeInfo {
    info(Some("feature/auth"), WorktreeSource::Cli, false)
}
