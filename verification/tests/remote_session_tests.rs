use codex_tui_kit::remote_session::{
    app_server_start_script, attaching_message, connected_message, copy_limit_exceeded,
    copy_too_large_message, upload_path, join_remote_path, parse_modal_session_request, parse_remote_target,
    remote_parent, shell_quote, should_prompt_remote_sandbox_termination,
    should_skip_workspace_entry, websocket_url_from_tunnel, RemoteProvider,
    RemoteSessionParseError, RemoteSessionRequest, RemoteWorkspaceMode, APP_SERVER_PORT,
};

fn local_cwd() -> String {
    "/Users/mish/projects/codex".to_string()
}

#[test]
fn parses_empty_modal_args_with_defaults() {
    assert_eq!(
        parse_modal_session_request("", local_cwd()),
        Ok(RemoteSessionRequest {
            provider: RemoteProvider::Modal,
            sandbox_id: None,
            remote_cwd: "/workspace".to_string(),
            workspace_mode: RemoteWorkspaceMode::UseRemotePath,
            local_cwd: local_cwd(),
        })
    );
}

#[test]
fn parses_existing_sandbox_and_remote_path() {
    assert_eq!(
        parse_modal_session_request("sb-123456789:/workspace/codex", local_cwd()),
        Ok(RemoteSessionRequest {
            provider: RemoteProvider::Modal,
            sandbox_id: Some("sb-123456789".to_string()),
            remote_cwd: "/workspace/codex".to_string(),
            workspace_mode: RemoteWorkspaceMode::UseRemotePath,
            local_cwd: local_cwd(),
        })
    );
}

#[test]
fn parses_path_only_target_and_copy_mode() {
    assert_eq!(
        parse_modal_session_request(":/repo --copy-cwd", local_cwd()),
        Ok(RemoteSessionRequest {
            provider: RemoteProvider::Modal,
            sandbox_id: None,
            remote_cwd: "/repo".to_string(),
            workspace_mode: RemoteWorkspaceMode::CopyCwd,
            local_cwd: local_cwd(),
        })
    );
}

#[test]
fn parses_git_clone_mode() {
    assert_eq!(
        parse_modal_session_request("--git-clone", local_cwd()),
        Ok(RemoteSessionRequest {
            provider: RemoteProvider::Modal,
            sandbox_id: None,
            remote_cwd: "/workspace".to_string(),
            workspace_mode: RemoteWorkspaceMode::GitClone,
            local_cwd: local_cwd(),
        })
    );
}

#[test]
fn parses_bare_token_as_sandbox_id() {
    assert_eq!(
        parse_modal_session_request("sb-123456789", local_cwd()),
        Ok(RemoteSessionRequest {
            provider: RemoteProvider::Modal,
            sandbox_id: Some("sb-123456789".to_string()),
            remote_cwd: "/workspace".to_string(),
            workspace_mode: RemoteWorkspaceMode::UseRemotePath,
            local_cwd: local_cwd(),
        })
    );
}

#[test]
fn rejects_conflicting_workspace_modes() {
    assert_eq!(
        parse_modal_session_request("--copy-cwd --git-clone", local_cwd()),
        Err(RemoteSessionParseError::ConflictingWorkspaceModes)
    );
}

#[test]
fn rejects_relative_remote_path() {
    assert_eq!(
        parse_modal_session_request("sb-123:relative/path", local_cwd()),
        Err(RemoteSessionParseError::RelativeRemotePath)
    );
}

#[test]
fn rejects_other_malformed_arguments() {
    assert_eq!(
        parse_modal_session_request("\"unterminated", local_cwd()),
        Err(RemoteSessionParseError::UnmatchedQuote)
    );
    assert_eq!(
        parse_modal_session_request("--verbose", local_cwd()),
        Err(RemoteSessionParseError::UnknownOption {
            option: "--verbose".to_string()
        })
    );
    assert_eq!(
        parse_modal_session_request("sb-1 sb-2", local_cwd()),
        Err(RemoteSessionParseError::DuplicateTarget)
    );
    assert_eq!(
        parse_modal_session_request(":", local_cwd()),
        Err(RemoteSessionParseError::EmptyTarget)
    );
    assert_eq!(
        parse_modal_session_request("--copy-cwd --copy-cwd", local_cwd()).map(|r| r.workspace_mode),
        Ok(RemoteWorkspaceMode::CopyCwd)
    );
}

#[test]
fn quoted_target_is_one_word() {
    assert_eq!(
        parse_modal_session_request("'sb-1:/work dir'", local_cwd()).map(|r| r.remote_cwd),
        Ok("/work dir".to_string())
    );
}

#[test]
fn target_with_empty_sandbox_keeps_the_path() {
    let target = parse_remote_target(":/repo").expect("target");
    assert_eq!(target.sandbox_id, None);
    assert_eq!(target.remote_cwd, Some("/repo".to_string()));
    let target = parse_remote_target("sb-1:").expect("target");
    assert_eq!(target.sandbox_id, Some("sb-1".to_string()));
    assert_eq!(target.remote_cwd, None);
}

#[test]
fn parse_errors_read_as_sentences() {
    assert_eq!(
        RemoteSessionParseError::UnknownOption {
            option: "--x".to_string()
        }
        .message(),
        "Unknown /modal option `--x`."
    );
    assert_eq!(
        RemoteSessionParseError::EmptyTarget.message(),
        "Modal sandbox target cannot be empty."
    );
}

#[test]
fn app_server_start_script_uses_capability_token_auth() {
    let script = app_server_start_script("/workspace/codex", "secret-token");

    assert!(script.contains("printf %s secret-token > /tmp/codex-app-server-token"));
    assert!(script.contains("codex app-server --listen ws://0.0.0.0:4222"));
    assert!(script.contains("--ws-auth capability-token"));
    assert!(script.contains("--ws-token-file /tmp/codex-app-server-token"));
}

#[test]
fn start_script_quotes_the_directory() {
    let script = app_server_start_script("/work dir", "t");
    assert!(script.contains("mkdir -p '/work dir'\ncd '/work dir'\n"));
    assert_eq!(shell_quote("a\0b"), "''");
}

#[test]
fn websocket_url_uses_unencrypted_tunnel_endpoint() {
    assert_eq!(
        websocket_url_from_tunnel(APP_SERVER_PORT, Some("tcp.example.modal.run"), Some(42_222)),
        Ok("ws://tcp.example.modal.run:42222".to_string())
    );
}

#[test]
fn websocket_url_requires_unencrypted_tunnel_endpoint() {
    let err = websocket_url_from_tunnel(APP_SERVER_PORT, None, None)
        .expect_err("unencrypted endpoint is required");
    assert!(err.contains("did not include an unencrypted endpoint"));
    assert_eq!(
        err,
        "Modal tunnel for port 4222 did not include an unencrypted endpoint"
    );
}

#[test]
fn remote_sandbox_exit_prompt_gate_requires_shutdown_and_session() {
    assert!(!should_prompt_remote_sandbox_termination(true, false, false));
    assert!(should_prompt_remote_sandbox_termination(true, true, false));
    assert!(!should_prompt_remote_sandbox_termination(false, true, false));
    assert!(!should_prompt_remote_sandbox_termination(true, true, true));
}

#[test]
fn remote_paths_join_and_split() {
    assert_eq!(join_remote_path("/workspace/", "src/main.rs"), "/workspace/src/main.rs");
    assert_eq!(join_remote_path("/workspace", "a"), "/workspace/a");
    assert_eq!(remote_parent("/workspace/codex"), "/workspace");
    assert_eq!(remote_parent("/"), "/");
    assert_eq!(remote_parent("file.txt"), "/");
}

#[test]
fn workspace_copy_skips_tool_directories_below_the_root() {
    assert!(should_skip_workspace_entry(1, true, Some(".git")));
    assert!(should_skip_workspace_entry(2, true, Some("target")));
    assert!(!should_skip_workspace_entry(0, true, Some(".git")));
    assert!(!should_skip_workspace_entry(1, false, Some(".git")));
    assert!(!should_skip_workspace_entry(1, true, Some("src")));
}

#[test]
fn provider_has_a_stable_name() {
    assert_eq!(RemoteProvider::Modal.as_str(), "modal");
}

#[test]
fn modal_attach_notes() {
    assert_eq!(
        attaching_message("/workspace/codex"),
        (
            "Attaching to Modal session...".to_string(),
            "Remote working directory: /workspace/codex".to_string()
        )
    );
    assert_eq!(
        connected_message("sb-123", "wss://tunnel.example:443", "/workspace/codex"),
        (
            "Connected to Modal sandbox sb-123.".to_string(),
            "App server: wss://tunnel.example:443 | cwd: /workspace/codex".to_string()
        )
    );
}

#[test]
fn workspace_paths_upload_with_forward_slashes() {
    assert_eq!(upload_path("nested/kept.md"), Ok("nested/kept.md".to_string()));
    assert_eq!(upload_path("a/./b//c/"), Ok("a/b/c".to_string()));
    assert_eq!(
        upload_path("../escape"),
        Err("unsupported workspace path `../escape`".to_string())
    );
    assert_eq!(
        upload_path("/abs"),
        Err("unsupported workspace path `/abs`".to_string())
    );
    assert_eq!(
        upload_path("./lead"),
        Err("unsupported workspace path `./lead`".to_string())
    );
}

#[test]
fn copy_cwd_limits() {
    assert!(!copy_limit_exceeded(9_999, 512 * 1024 * 1024));
    assert!(copy_limit_exceeded(10_000, 0));
    assert!(copy_limit_exceeded(0, 512 * 1024 * 1024 + 1));
    assert_eq!(
        copy_too_large_message(),
        "cwd copy is too large for /modal --copy-cwd (limit: 10000 files or 512 MiB)"
    );
}
