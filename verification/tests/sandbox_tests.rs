use codex_tui_kit::sandbox_paths::{
    canonical_path_key, deny_read_acl_record_path, drive_letter, effective_spawn_cwd,
    glob_scan_max_depth, glob_scan_plan, junction_action, junction_name_for_path,
    junction_root_for_userprofile,
    lexical_path_key, mklink_args, path_uses_unc_prefix, plan_deny_read_acl_paths,
    scan_descends, should_materialize_junction, stale_deny_read_paths, system_drive_letter,
    DenyReadAclRecordKind, JunctionAction, JunctionProbe,
};
use codex_tui_kit::sandbox_policy::{
    check_spawn_policy, choose_spawn_cwd, normalize_spawn_cwd, should_apply_network_block,
    SandboxPolicy,
};

#[test]
fn skips_system_drive_workspaces() {
    assert!(!should_materialize_junction(r"C:\repo", Some("C:")));
}

#[test]
fn uses_junction_for_non_system_drive_workspaces() {
    assert!(should_materialize_junction(r"F:\repo", Some("C:")));
}

#[test]
fn skips_unc_paths() {
    assert!(!should_materialize_junction(r"\\server\share\repo", Some("C:")));
}

#[test]
fn leaves_system_drive_paths_unchanged() {
    let cwd = r"C:\repo".to_string();
    let wanted = should_materialize_junction(&cwd, Some("C:"));
    assert_eq!(effective_spawn_cwd(cwd.clone(), None, wanted), cwd);
}

#[test]
fn canonical_path_key_normalizes_case_and_separators() {
    assert_eq!(
        canonical_path_key(r"C:\Users\Dev\Repo", None),
        canonical_path_key("c:/users/dev/repo", None)
    );
}

#[test]
fn path_uses_unc_prefix_matches_standard_and_verbatim_unc_paths() {
    let windows_host = true;
    assert!(path_uses_unc_prefix(r"\\server\share\repo", windows_host));
    assert!(path_uses_unc_prefix(r"\\?\UNC\server\share\repo", windows_host));
    assert!(!path_uses_unc_prefix(r"C:\repo", windows_host));
}

#[test]
fn unc_prefixes_follow_the_host() {
    assert!(path_uses_unc_prefix(r"\\server\share\repo", true));
    assert!(path_uses_unc_prefix(r"\\?\UNC\server\share\repo", true));
    assert!(!path_uses_unc_prefix(r"C:\repo", true));
    assert!(!path_uses_unc_prefix(r"\\server\share\repo", false));
    assert!(!path_uses_unc_prefix(r"\\?\UNC\server\share\repo", false));
}

#[test]
fn normalize_spawn_cwd_preserves_regular_local_paths() {
    let path = r"C:\repo";
    assert_eq!(normalize_spawn_cwd(path, None, false), path);
    assert_eq!(
        normalize_spawn_cwd(r"Z:\repo", Some(r"\\server\share\repo"), false),
        r"Z:\repo"
    );
}

#[test]
fn no_network_env_rewrite_applies_for_workspace_write() {
    assert!(should_apply_network_block(
        &SandboxPolicy::new_workspace_write_policy(),
    ));
}

#[test]
fn no_network_env_rewrite_skips_when_network_access_is_allowed() {
    assert!(!should_apply_network_block(&SandboxPolicy::WorkspaceWrite {
        writable_roots: Vec::new(),
        network_access: true,
        exclude_tmpdir_env_var: false,
        exclude_slash_tmp: false,
    },));
}

#[test]
fn plan_preserves_missing_paths() {
    let missing = "/tmp/codex-test/future-secret.env".to_string();

    assert_eq!(
        plan_deny_read_acl_paths(std::slice::from_ref(&missing), &[None]),
        vec![missing]
    );
}

#[test]
fn plan_includes_existing_canonical_targets() {
    let existing = "/tmp/codex-test/link/secret.env".to_string();
    let canonical = "/tmp/codex-test/real/secret.env".to_string();

    assert_eq!(
        plan_deny_read_acl_paths(std::slice::from_ref(&existing), &[Some(canonical.clone())]),
        vec![existing, canonical]
    );
}

#[test]
fn plan_drops_paths_with_the_same_key() {
    let planned = plan_deny_read_acl_paths(
        &[r"C:\Secret\".to_string(), "c:/secret".to_string()],
        &[Some("c:/SECRET".to_string()), None],
    );
    assert_eq!(planned, vec![r"C:\Secret\".to_string()]);
    assert_eq!(lexical_path_key(r"C:\Secret\\"), "c:/secret".chars().collect::<Vec<_>>());
}

#[test]
fn stale_records_are_the_existing_ones_no_longer_wanted() {
    let recorded = vec!["/a".to_string(), "/b".to_string(), "/c".to_string()];
    let stale = stale_deny_read_paths(&recorded, &[true, true, false], &["/A/".to_string()]);
    assert_eq!(stale, vec!["/b".to_string()]);
}

#[test]
fn scan_root_uses_literal_prefix_before_glob() {
    assert_eq!(glob_scan_plan("/tmp/work/**/*.env").root, "/tmp/work");
    assert_eq!(
        glob_scan_plan(r"C:\Users\dev\repo\**\*.env").root,
        r"C:\Users\dev\repo"
    );
    assert_eq!(glob_scan_plan(r"C:\*.env").root, r"C:\");
}

#[test]
fn scan_depth_is_bounded_for_non_recursive_globs() {
    assert_eq!(glob_scan_plan("/tmp/work/*.env").max_depth, Some(1));
    assert_eq!(glob_scan_plan("/tmp/work/*/*.env").max_depth, Some(2));
    assert_eq!(glob_scan_plan("/tmp/work/**/*.env").max_depth, None);
}

#[test]
fn scan_without_separator_starts_here() {
    let plan = glob_scan_plan("*.env");
    assert_eq!(plan.root, ".");
    assert_eq!(plan.max_depth, Some(1));
    assert_eq!(glob_scan_plan("/*.env").root, "/");
    assert_eq!(glob_scan_max_depth(&['a', '/', '/', 'b']), Some(2));
    assert!(scan_descends(None, 100));
    assert!(scan_descends(Some(2), 1));
    assert!(!scan_descends(Some(2), 2));
}

#[test]
fn drive_letters_come_from_disk_prefixes() {
    assert_eq!(drive_letter(r"c:\repo"), Some('C'));
    assert_eq!(drive_letter(r"\\?\d:\repo"), Some('D'));
    assert_eq!(drive_letter(r"\\server\share"), None);
    assert_eq!(system_drive_letter(None), None);
    assert!(!should_materialize_junction(r"F:\repo", None));
}

#[test]
fn junction_plan_and_command() {
    assert_eq!(junction_action(JunctionProbe::Missing), JunctionAction::Create);
    assert_eq!(junction_action(JunctionProbe::ReparsePoint), JunctionAction::Reuse);
    assert_eq!(junction_action(JunctionProbe::NotReparsePoint), JunctionAction::Replace);
    assert_eq!(junction_action(JunctionProbe::StatFailed), JunctionAction::GiveUp);
    assert_eq!(
        mklink_args("C:/j", "F:/repo"),
        vec!["/c", "mklink", "/J", "\"C:/j\"", "\"F:/repo\""]
    );
    assert_eq!(junction_root_for_userprofile("C:/Users/me"), "C:/Users/me/.codex/.sandbox/cwd");
    assert_eq!(
        effective_spawn_cwd("F:/repo".to_string(), Some("C:/j".to_string()), true),
        "C:/j"
    );
}

#[test]
fn deny_read_records_live_in_the_sandbox_dir() {
    assert_eq!(
        deny_read_acl_record_path("/home/me/.codex", DenyReadAclRecordKind::SandboxGroup),
        "/home/me/.codex/.sandbox/deny_read_acls_sandbox_group.json"
    );
    assert_eq!(
        DenyReadAclRecordKind::RestrictedToken.file_name(),
        "deny_read_acls_restricted_token.json"
    );
}

#[test]
fn dangerous_policies_cannot_be_sandboxed() {
    assert!(check_spawn_policy(&SandboxPolicy::DangerFullAccess).is_err());
    assert!(check_spawn_policy(&SandboxPolicy::ExternalSandbox {
        network_access: false
    })
    .is_err());
    assert_eq!(
        check_spawn_policy(&SandboxPolicy::ReadOnly {
            network_access: false
        }),
        Ok(false)
    );
    assert_eq!(check_spawn_policy(&SandboxPolicy::new_workspace_write_policy()), Ok(true));
    assert!(!should_apply_network_block(&SandboxPolicy::DangerFullAccess));
}

#[test]
fn spawn_cwd_prefers_a_unc_form() {
    assert_eq!(
        choose_spawn_cwd(
            r"Z:\repo".to_string(),
            Some(r"\\server\share\repo".to_string()),
            true
        ),
        r"\\server\share\repo"
    );
    assert_eq!(
        choose_spawn_cwd(r"Z:\repo".to_string(), Some(r"C:\real".to_string()), true),
        r"Z:\repo"
    );
    assert_eq!(
        choose_spawn_cwd(
            r"Z:\repo".to_string(),
            Some(r"\\server\share\repo".to_string()),
            false
        ),
        r"Z:\repo"
    );
}

#[test]
fn junction_names_hash_the_path() {
    use_default_hasher_matches("C:\\work\\repo");
    use_default_hasher_matches("");
    use_default_hasher_matches("D:\\x");
    assert_ne!(junction_name_for_path("D:\\a"), junction_name_for_path("D:\\b"));
    let name = junction_name_for_path("D:\\a");
    assert!(name.chars().all(|c| c.is_ascii_hexdigit() && !c.is_ascii_uppercase()));
}

fn use_default_hasher_matches(path: &str) {
    let mut hasher = std::collections::hash_map::DefaultHasher::new();
    std::hash::Hash::hash(path, &mut hasher);
    let expected = format!("{:x}", std::hash::Hasher::finish(&hasher));
    assert_eq!(junction_name_for_path(path), expected);
}
