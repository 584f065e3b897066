use jean_core::auth::{generate_token, validate_token};
use jean_core::config::shell_supports_login;
use jean_core::events::WsBroadcaster;
use jean_core::git::{get_repo_name, RepoIdentifier};
use jean_core::linear_issues::{extract_linear_image_urls, rewrite_linear_image_urls};
use jean_core::merge::{is_retryable_worktree_create_error, push_needs_upstream_retry};
use jean_core::paths::{AppPaths, HeadlessAppPaths, ResolvedAppPaths};
use jean_core::provision::{
    build_systemd_unit, jean_launch_command, platform_key, RemoteServerAuth, RemoteServerConfig,
    RemoteServerStatus,
};
use jean_core::registry::ResourceRegistry;
use jean_core::terminal::Utf8StreamDecoder;
use std::path::PathBuf;

#[test]
fn generated_tokens_are_url_safe_and_unique() {
    let first = generate_token();
    let second = generate_token();
    assert_eq!(first.len(), 43);
    assert_ne!(first, second);
    assert!(first
        .chars()
        .all(|character| character.is_ascii_alphanumeric() || matches!(character, '-' | '_')));
}

#[test]
fn token_validation_rejects_different_values_and_lengths() {
    assert!(validate_token("secret", "secret"));
    assert!(!validate_token("secret", "secrex"));
    assert!(!validate_token("short", "longer"));
}

#[test]
fn inactive_broadcaster_does_not_buffer() {
    let mut broadcaster = WsBroadcaster::new();
    broadcaster.broadcast("chat:chunk", "{\"session_id\":\"s1\"}");
    assert!(broadcaster.replay_events("s1", 0).is_empty());
}

#[test]
fn chat_and_terminal_events_are_replayed_in_order() {
    let mut broadcaster = WsBroadcaster::new();
    broadcaster.set_active(true);
    broadcaster.broadcast("chat:chunk", "{\"content\":\"a\",\"session_id\":\"s1\"}");
    broadcaster.broadcast("chat:chunk", "{\"content\":\"b\",\"session_id\":\"s1\"}");
    broadcaster.broadcast("terminal:output", "{\"data\":\"x\",\"terminal_id\":\"t1\"}");

    let chat = broadcaster.replay_events("s1", 0);
    assert_eq!(chat.len(), 2);
    assert!(chat[0].seq < chat[1].seq);
    assert_eq!(broadcaster.replay_terminal_events("t1", 0).len(), 1);
}

#[test]
fn completion_clears_chat_replay_buffer() {
    let mut broadcaster = WsBroadcaster::new();
    broadcaster.set_active(true);
    broadcaster.broadcast("chat:chunk", "{\"session_id\":\"s1\"}");
    broadcaster.broadcast("chat:done", "{\"session_id\":\"s1\"}");
    assert!(broadcaster.replay_events("s1", 0).is_empty());
}

#[test]
fn explicit_data_dir_preserves_desktop_layout_root() {
    let temp = tempfile::tempdir().expect("temp dir");
    let paths = HeadlessAppPaths::resolve_with_data_dir(
        "com.jean.desktop",
        Some(temp.path().join("com.jean.desktop")),
        PathBuf::from("."),
    )
    .expect("paths");
    assert_eq!(
        paths.data_dir().expect("data dir"),
        temp.path().join("com.jean.desktop")
    );
}

#[test]
fn resolved_paths_are_returned_without_hidden_runtime_state() {
    let paths = ResolvedAppPaths::new(
        PathBuf::from("data"),
        PathBuf::from("config"),
        PathBuf::from("cache"),
        PathBuf::from("resources"),
    );
    assert_eq!(paths.data_dir().unwrap(), PathBuf::from("data"));
    assert_eq!(paths.config_dir().unwrap(), PathBuf::from("config"));
    assert_eq!(paths.cache_dir().unwrap(), PathBuf::from("cache"));
    assert_eq!(paths.resource_dir().unwrap(), PathBuf::from("resources"));
}

#[test]
fn registries_are_explicit_and_idempotent() {
    let mut registry = ResourceRegistry::default();
    assert!(registry.register("run-1".to_string()));
    assert!(!registry.register("run-1".to_string()));
    assert!(registry.contains("run-1"));
    assert_eq!(registry.len(), 1);
    assert!(registry.unregister("run-1"));
    assert!(registry.is_empty());
}

#[test]
fn decoder_carries_split_utf8_codepoint() {
    let mut decoder = Utf8StreamDecoder::default();
    assert_eq!(decoder.decode(&[0xe2, 0x82]), None);
    assert_eq!(decoder.decode(&[0xac]), Some("€".to_string()));
}

#[test]
fn test_get_repo_name() {
    assert_eq!(
        get_repo_name("/Users/test/projects/my-repo").unwrap(),
        "my-repo"
    );
    assert_eq!(
        get_repo_name("/Users/test/my_project").unwrap(),
        "my_project"
    );
}

#[test]
fn test_get_repo_name_with_trailing_slash() {
    let result = get_repo_name("/");
    assert!(result.is_err());
}

#[test]
fn test_get_repo_name_single_component() {
    assert_eq!(get_repo_name("my-repo").unwrap(), "my-repo");
}

#[test]
fn test_shell_login_support_detection() {
    assert!(shell_supports_login("/bin/bash"));
    assert!(shell_supports_login("/bin/zsh"));
    assert!(shell_supports_login("/usr/local/bin/fish"));
    assert!(shell_supports_login("/bin/ksh"));
    assert!(shell_supports_login("/bin/tcsh"));
    assert!(!shell_supports_login("/bin/sh"));
    assert!(!shell_supports_login("/bin/dash"));
}

#[test]
fn test_git_push_needs_upstream_retry_for_no_upstream() {
    let stderr = "fatal: The current branch feature has no upstream branch.";
    assert!(push_needs_upstream_retry(stderr));
}

#[test]
fn test_git_push_needs_upstream_retry_for_simple_mismatch() {
    let stderr = "fatal: The upstream branch of your current branch does not match\n\
                  the name of your current branch.  To push to the upstream branch\n\
                  on the remote, use\n\n\
                  git push origin HEAD:main\n\n\
                  To push to the branch of the same name on the remote, use\n\n\
                  git push origin HEAD\n\n\
                  To choose either option permanently, see push.default in git-config.\n\
                  fatal: push.default is set to simple";
    assert!(push_needs_upstream_retry(stderr));
}

#[test]
fn retryable_worktree_create_error_detects_git_config_lock() {
    let stderr = "Preparing worktree (new branch 'issue-10593')\n\
                  error: could not lock config file .git/config: File exists\n\
                  error: unable to write upstream branch configuration";

    assert!(is_retryable_worktree_create_error(stderr));
}

#[test]
fn retryable_worktree_create_error_rejects_real_conflicts() {
    assert!(!is_retryable_worktree_create_error(
        "fatal: a branch named 'issue-10593' already exists"
    ));
    assert!(!is_retryable_worktree_create_error(
        "fatal: '/tmp/project/issue-10593' already exists"
    ));
}

#[test]
fn test_git_push_needs_upstream_retry_ignores_permission_errors() {
    let stderr = "remote: Permission to owner/repo.git denied to user.\n\
                  fatal: unable to access 'https://github.com/owner/repo.git/': \
                  The requested URL returned error: 403";
    assert!(!push_needs_upstream_retry(stderr));
}

#[test]
fn test_repo_identifier_to_key() {
    let id = RepoIdentifier {
        owner: "heyandras".to_string(),
        repo: "jean".to_string(),
    };
    assert_eq!(id.to_key(), "heyandras-jean");
}

#[test]
fn test_repo_identifier_to_key_with_hyphen_in_name() {
    let id = RepoIdentifier {
        owner: "my-org".to_string(),
        repo: "my-project".to_string(),
    };
    assert_eq!(id.to_key(), "my-org-my-project");
}

#[test]
fn rewrite_linear_image_urls_replaces_markdown_and_html_images() {
    let markdown = "Before ![shot](https://uploads.linear.app/a.png) after <img alt=\"diagram\" src=\"https://uploads.linear.app/b.jpg\" />";
    let replacements = vec![
        (
            "https://uploads.linear.app/a.png".to_string(),
            "/tmp/linear/a.png".to_string(),
        ),
        (
            "https://uploads.linear.app/b.jpg".to_string(),
            "/tmp/linear/b.jpg".to_string(),
        ),
    ];

    let rewritten = rewrite_linear_image_urls(markdown, &replacements);

    assert_eq!(
        rewritten,
        "Before ![shot](</tmp/linear/a.png>) after <img alt=\"diagram\" src=\"/tmp/linear/b.jpg\" />"
    );
}

#[test]
fn extract_linear_image_urls_only_returns_trusted_linear_images() {
    let markdown = [
        "![one](https://uploads.linear.app/a.png)\n",
        "<img src=\"https://uploads.linear.app/b.jpg\" />\n",
        "![skip](https://example.com/not-linear.png)\n",
        "![skip](https://workspace.linear.app/not-upload.png)\n",
        "![skip](http://uploads.linear.app/insecure.png)\n",
    ]
    .concat();

    let urls = extract_linear_image_urls(&markdown);

    assert_eq!(
        urls,
        vec![
            "https://uploads.linear.app/a.png".to_string(),
            "https://uploads.linear.app/b.jpg".to_string(),
        ]
    );
}

#[test]
fn launch_command_is_the_single_xvfb_boundary() {
    assert_eq!(
        jean_launch_command(5599, "test-token"),
        "/usr/bin/xvfb-run -a /opt/jean-remote/jean.AppImage --headless --host 127.0.0.1 --port 5599 --token test-token"
    );
}

#[test]
fn platform_mapping_accepts_release_architectures() {
    assert_eq!(platform_key("x86_64").unwrap(), "linux-x86_64");
    assert_eq!(platform_key("aarch64").unwrap(), "linux-aarch64");
    assert!(platform_key("riscv64").is_err());
}

#[test]
fn systemd_unit_binds_jean_to_loopback() {
    let server = RemoteServerConfig {
        id: "server-id".to_string(),
        name: "Cloud".to_string(),
        host: "example.com".to_string(),
        port: 22,
        username: "jean".to_string(),
        auth: RemoteServerAuth::SshKeyPath {
            path: "/tmp/key".to_string(),
            passphrase: None,
        },
        default: false,
        remote_port: 3456,
        status: RemoteServerStatus::Disconnected,
        http_token: None,
        installed_version: None,
    };
    let unit = build_systemd_unit(&server, "secret");
    assert!(unit.contains("User=jean"));
    assert!(unit.contains("--host 127.0.0.1 --port 3456 --token secret"));
    assert!(unit.contains("APPIMAGE_EXTRACT_AND_RUN=1"));
}
