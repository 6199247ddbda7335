use codex_tui_kit::slash::{parse_worktree_slash_args, WorktreeLabel, WorktreeSlashAction};
use codex_tui_kit::worktree::{
    apply_dirty_policy_after_create, dirty_state, validate_dirty_policy_before_create, DirtyPolicy,
    DirtyState, DirtyTransferStep, WorktreeDirtyCliArg,
};
use codex_tui_kit::worktree_git::{
    branch_from_symbolic_ref, parse_worktree_list, worktree_remove_args, GitWorktreeEntry,
};
use codex_tui_kit::worktree_paths::{
    codex_worktrees_root, is_managed_worktree_path, path_file_name, path_parent,
    path_starts_with_exec, repo_fingerprint,
    sanitize_branch_for_path, sibling_worktree_git_root, slugify_name,
};

#[test]
fn dirty_state_reports_clean_by_default() {
    assert!(!DirtyState::default().is_dirty());
}

#[test]
fn parse_worktree_list_preserves_branches() {
    let entries = parse_worktree_list(
        "worktree /repo\nHEAD abc\nbranch refs/heads/main\n\nworktree /repo.wt\nHEAD def\nbranch refs/heads/codex/demo\n\n",
    );
    assert_eq!(
        entries,
        vec![
            GitWorktreeEntry {
                path: "/repo".to_string(),
                branch: Some("main".to_string())
            },
            GitWorktreeEntry {
                path: "/repo.wt".to_string(),
                branch: Some("codex/demo".to_string())
            }
        ]
    );
}

#[test]
fn slugify_name_keeps_short_ascii_slug() {
    assert_eq!(slugify_name("Fix parser tests!"), Ok("fix-parser-tests".to_string()));
}

#[test]
fn sanitize_branch_for_path_matches_worktrunk_style() {
    assert_eq!(
        sanitize_branch_for_path("feature/auth\\windows"),
        Ok("feature-auth-windows".to_string())
    );
}

#[test]
fn sibling_worktree_path_matches_worktrunk_default() {
    assert_eq!(
        sibling_worktree_git_root("/Users/me/code/codex", "feature/auth"),
        Ok("/Users/me/code/codex.feature-auth".to_string())
    );
}

#[test]
fn parse_new_with_flags() {
    assert_eq!(
        parse_worktree_slash_args("new fcoury/demo --base origin/main --dirty copy-tracked"),
        Ok(WorktreeSlashAction::Create {
            branch: "fcoury/demo".to_string(),
            base_ref: Some("origin/main".to_string()),
            dirty_policy: Some(DirtyPolicy::CopyTracked),
        })
    );
}

#[test]
fn parse_switch_aliases_move() {
    assert_eq!(
        parse_worktree_slash_args("move fcoury/demo"),
        Ok(WorktreeSlashAction::Switch {
            target: "fcoury/demo".to_string(),
        })
    );
}

#[test]
fn parse_remove_with_flags() {
    assert_eq!(
        parse_worktree_slash_args("remove fcoury/demo --force --delete-branch"),
        Ok(WorktreeSlashAction::Remove {
            target: "fcoury/demo".to_string(),
            force: true,
            delete_branch: true,
        })
    );
}

#[test]
fn summary_includes_name_branch_and_repo() {
    let label = WorktreeLabel {
        name: String::from("parser-fix"),
        branch: Some(String::from("parser-fix")),
        repo_name: String::from("codex"),
        dirty: false,
    };

    assert_eq!(label.summary(), "parser-fix · clean · codex");
}

#[test]
fn slash_args_without_words_open_the_picker() {
    assert_eq!(parse_worktree_slash_args("   "), Ok(WorktreeSlashAction::OpenPicker));
    assert_eq!(parse_worktree_slash_args("list"), Ok(WorktreeSlashAction::OpenPicker));
}

#[test]
fn slash_path_needs_exactly_one_target() {
    assert!(parse_worktree_slash_args("path").is_err());
    assert_eq!(
        parse_worktree_slash_args("path demo"),
        Ok(WorktreeSlashAction::ShowPath {
            target: "demo".to_string()
        })
    );
}

#[test]
fn dirty_state_flags_each_kind_of_change() {
    let state = dirty_state(b"", b"M file\n", b"");
    assert!(state.is_dirty());
    assert!(!state.has_staged_changes);
    assert!(state.has_unstaged_changes);
    assert!(!state.has_untracked_files);
    assert!(!dirty_state(b"", b"", b"").is_dirty());
}

#[test]
fn fail_policy_refuses_a_dirty_checkout() {
    let dirty = dirty_state(b"x", b"", b"");
    assert!(validate_dirty_policy_before_create(&dirty, DirtyPolicy::Fail).is_err());
    assert!(validate_dirty_policy_before_create(&DirtyState::default(), DirtyPolicy::Fail).is_ok());
}

#[test]
fn clean_checkout_needs_no_transfer() {
    for policy in [
        DirtyPolicy::Fail,
        DirtyPolicy::Ignore,
        DirtyPolicy::CopyTracked,
        DirtyPolicy::CopyAll,
        DirtyPolicy::MoveTracked,
        DirtyPolicy::MoveAll,
    ] {
        assert!(apply_dirty_policy_after_create(&DirtyState::default(), policy).is_empty());
    }
}

#[test]
fn move_all_transfers_untracked_files_too() {
    let dirty = dirty_state(b"x", b"", b"new.txt");
    let steps = apply_dirty_policy_after_create(&dirty, DirtyPolicy::MoveAll);
    assert!(!steps.is_empty());
    let copy_tracked = apply_dirty_policy_after_create(&dirty, DirtyPolicy::CopyTracked);
    assert_ne!(steps, copy_tracked);
    let _: Vec<DirtyTransferStep> = copy_tracked;
}

#[test]
fn dirty_cli_arg_defaults_to_fail() {
    assert_eq!(WorktreeDirtyCliArg::default(), WorktreeDirtyCliArg::Fail);
}

#[test]
fn worktrees_live_under_codex_home() {
    assert_eq!(codex_worktrees_root("/home/me/.codex"), "/home/me/.codex/worktrees");
    assert!(is_managed_worktree_path(
        "/home/me/.codex/worktrees/abc/repo",
        "/home/me/.codex",
        None,
        None
    ));
    assert!(!is_managed_worktree_path("/home/me/code/repo", "/home/me/.codex", None, None));
}

#[test]
fn repo_fingerprint_hashes_git_dir_and_origin() {
    assert_eq!(repo_fingerprint("/repo/.git", None), "6b4ca2db35cfaf43");
    assert_eq!(
        repo_fingerprint("/repo/.git", Some("git@github.com:openai/codex.git")),
        "a8dee73656908ac3"
    );
}

#[test]
fn symbolic_ref_gives_the_branch_name() {
    assert_eq!(branch_from_symbolic_ref("main\n"), Some("main".to_string()));
    assert_eq!(branch_from_symbolic_ref("  \n"), None);
}

#[test]
fn remove_args_force_when_asked() {
    let args = worktree_remove_args("/tmp/wt", true);
    assert_eq!(args.first().map(String::as_str), Some("worktree"));
    assert!(args.iter().any(|a| a == "--force"));
}

#[test]
fn slugs_are_their_own_slugs() {
    for name in ["Feature/Foo Bar!", "  --x--  ", "a b c d e f g h i j k l m n", "ÄBC déf", "already-a-slug"] {
        let slug = slugify_name(name).unwrap();
        assert_eq!(slugify_name(&slug), Ok(slug.clone()));
    }
    assert!(slugify_name("!!!").is_err());
}

#[test]
fn a_leading_dot_is_a_component_of_its_own() {
    assert!(path_starts_with_exec("./a/b", "./a"));
    assert!(path_starts_with_exec("./a/./b", "./a/b"));
    assert!(!path_starts_with_exec("./a", "a"));
    assert!(!path_starts_with_exec("a/b", "./a"));
    assert!(path_starts_with_exec("a/./b", "a/b"));
    assert!(path_starts_with_exec("/a/./b", "/a/b"));
    assert!(path_starts_with_exec(".", "./"));
}

#[test]
fn file_names_and_parents_follow_path_components() {
    let name = |p: &str| path_file_name(p);
    let parent = |p: &str| path_parent(p);
    assert_eq!(name("/repo/."), Some("repo".to_string()));
    assert_eq!(parent("/repo/."), Some("/".to_string()));
    assert_eq!(name("/repo/./"), Some("repo".to_string()));
    assert_eq!(name("/a/b/"), Some("b".to_string()));
    assert_eq!(parent("/a/b/"), Some("/a".to_string()));
    assert_eq!(parent("a//./b/c"), Some("a//./b".to_string()));
    assert_eq!(parent("a//b"), Some("a".to_string()));
    assert_eq!(name("a/.."), None);
    assert_eq!(parent("a/.."), Some("a".to_string()));
    assert_eq!(name("."), None);
    assert_eq!(parent("."), Some(String::new()));
    assert_eq!(parent("./a"), Some(".".to_string()));
    assert_eq!(parent("x"), Some(String::new()));
    assert_eq!(parent("/"), None);
    assert_eq!(name("/"), None);
    assert_eq!(parent(""), None);
    assert_eq!(parent("/x"), Some("/".to_string()));
    assert_eq!(
        sibling_worktree_git_root("/repo/.", "b"),
        Ok("/repo.b".to_string())
    );
    assert_eq!(
        sibling_worktree_git_root("/src/repo/", "feature/x"),
        sibling_worktree_git_root("/src/repo", "feature/x")
    );
}
