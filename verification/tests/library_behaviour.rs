use jean_core::commandcode::{
    check_commandcode_cli_installed, looks_authenticated, parse_version, strip_ansi_chars,
};
use jean_core::config::{run_script, run_setup_script, user_shell};
use jean_core::error::{BackendError, BackendErrorCode};
use jean_core::events::{event_json, WsBroadcaster, SESSION_BUFFER_CAP};
use jean_core::git::resolve_git_dirs;
use jean_core::git_ops::{rename_branch, validate_git_repo};
use jean_core::paths::{AppPaths, HeadlessAppPaths};
use std::path::PathBuf;
use jean_core::git_status::{branch_status, ActiveWorktreeInfo};
use jean_core::image_cache::{
    download_linear_context_image, uncached_image_urls, ImageAction, ImageReply, ImageResponse,
};
use jean_core::image_refs::{html_image_captures, markdown_image_captures};
use jean_core::json_value::Json;
use jean_core::linear::{
    issue_by_number_request, issue_request, linear_config, list_issues_request,
    list_teams_request, parse_issue_by_number_response, parse_issue_detail_response,
    parse_issue_list_response, parse_search_response, parse_teams_response,
    search_issues_request,
};
use jean_core::linear_issues::{
    add_linear_reference, get_session_linear_refs, remove_linear_reference, ContextReference,
    linear_context_file_name, linear_image_cache_name, parse_linear_identifier_number,
    rewrite_linear_image_urls,
};
use jean_core::process::{Invocation, Outcome, Output, Program, Step};
use jean_core::provision::{
    decode_base64_text, encode_base64_text, failure_text, is_appimage_entry, provision,
    shell_quote, verify_artifact, ExecOutput, ProvisionAction,
    ProvisionReply, RemoteServerAuth, RemoteServerConfig, RemoteServerStatus,
};
use jean_core::push::git_push_to_pr;
use jean_core::registry::ResourceRegistry;
use jean_core::repo_setup::{clone_repo, init_repo};
use jean_core::server_args::{parse_cli_args, CliCommand, ServerEnv};
use jean_core::terminal::Utf8StreamDecoder;

fn ok(stdout: &str) -> Outcome {
    Ok(Output {
        success: true,
        stdout: stdout.to_string(),
        stderr: String::new(),
    })
}

fn failed(stderr: &str) -> Outcome {
    Ok(Output {
        success: false,
        stdout: String::new(),
        stderr: stderr.to_string(),
    })
}

/// Runs a protocol, answering each request with `respond`; returns the value
/// and the requests made.
fn drive<T>(
    mut step: impl FnMut(&Vec<Outcome>) -> Step<T>,
    mut respond: impl FnMut(&Invocation) -> Outcome,
) -> (T, Vec<Invocation>) {
    let mut outcomes = Vec::new();
    let mut asked = Vec::new();
    loop {
        match step(&outcomes) {
            Step::Done(value) => return (value, asked),
            Step::Run(invocation) => {
                outcomes.push(respond(&invocation));
                asked.push(invocation);
            }
        }
    }
}

fn args_of(invocation: &Invocation) -> Vec<&str> {
    invocation.args.iter().map(String::as_str).collect()
}

// ---------------------------------------------------------------------------
// Pushing to a pull request
// ---------------------------------------------------------------------------

#[test]
fn push_to_same_repository_pr_updates_its_head_branch() {
    let (result, asked) = drive(
        |outs| git_push_to_pr("/repo", 7, outs),
        |inv| match args_of(inv).as_slice() {
            ["pr", "view", "7", "--json", _] => ok(
                r#"{"headRefName":"feature","isCrossRepository":false,"headRepositoryOwner":{"login":"me"},"headRepository":{"name":"jean"}}"#,
            ),
            ["push", "--force-with-lease", "origin", "HEAD:feature"] => Ok(Output {
                success: true,
                stdout: String::new(),
                stderr: "To github.com:me/jean.git".to_string(),
            }),
            other => panic!("unexpected request {other:?}"),
        },
    );
    let result = result.unwrap();
    assert_eq!(result.output, "To github.com:me/jean.git");
    assert!(!result.fell_back);
    assert!(!result.permission_denied);
    assert_eq!(result.pushed_remote.as_deref(), Some("origin"));
    assert_eq!(result.pushed_branch.as_deref(), Some("feature"));
    assert!(matches!(asked[0].program, Program::Gh));
    assert_eq!(asked.len(), 2);
}

#[test]
fn push_to_fork_pr_adds_a_remote_for_the_fork() {
    let (result, asked) = drive(
        |outs| git_push_to_pr("/repo", 12, outs),
        |inv| match args_of(inv).as_slice() {
            ["pr", "view", "12", "--json", _] => ok(
                r#"{"headRefName":"fix","isCrossRepository":true,"headRepositoryOwner":{"login":"alice"},"headRepository":{"name":"jean"}}"#,
            ),
            ["remote", "get-url", "origin"] => ok("git@github.com:owner/jean.git\n"),
            ["remote", "-v"] => ok("origin\tgit@github.com:owner/jean.git (fetch)\n"),
            ["remote", "add", "alice", "git@github.com:alice/jean.git"] => ok(""),
            ["fetch", "alice", "fix"] => ok(""),
            ["push", "--force-with-lease", "alice", "HEAD:fix"] => ok("pushed"),
            other => panic!("unexpected request {other:?}"),
        },
    );
    let result = result.unwrap();
    assert_eq!(result.output, "pushed");
    assert_eq!(result.pushed_remote.as_deref(), Some("alice"));
    assert_eq!(result.pushed_branch.as_deref(), Some("fix"));
    assert_eq!(asked.len(), 6);
}

#[test]
fn push_to_fork_pr_reuses_an_existing_fork_remote() {
    let (result, asked) = drive(
        |outs| git_push_to_pr("/repo", 12, outs),
        |inv| match args_of(inv).as_slice() {
            ["pr", "view", "12", "--json", _] => ok(
                r#"{"headRefName":"fix","isCrossRepository":true,"headRepositoryOwner":{"login":"alice"},"headRepository":{"name":"jean"}}"#,
            ),
            ["remote", "get-url", "origin"] => ok("https://github.com/owner/jean.git\n"),
            ["remote", "-v"] => ok(
                "origin\thttps://github.com/owner/jean.git (fetch)\nfork\thttps://github.com/alice/jean.git (push)\n",
            ),
            ["fetch", "fork", "fix"] => ok(""),
            ["push", "--force-with-lease", "fork", "HEAD:fix"] => ok("done"),
            other => panic!("unexpected request {other:?}"),
        },
    );
    assert_eq!(result.unwrap().pushed_remote.as_deref(), Some("fork"));
    assert_eq!(asked.len(), 5);
}

#[test]
fn push_refused_for_permission_is_reported_not_retried() {
    let (result, asked) = drive(
        |outs| git_push_to_pr("/repo", 3, outs),
        |inv| match args_of(inv).as_slice() {
            ["pr", "view", ..] => ok(r#"{"headRefName":"b","isCrossRepository":false}"#),
            ["push", "--force-with-lease", "origin", "HEAD:b"] => {
                failed("remote: Permission to owner/jean.git denied to me.")
            }
            other => panic!("unexpected request {other:?}"),
        },
    );
    let result = result.unwrap();
    assert!(result.permission_denied);
    assert!(!result.fell_back);
    assert_eq!(result.output, "remote: Permission to owner/jean.git denied to me.");
    assert_eq!(result.pushed_remote, None);
    assert_eq!(asked.len(), 2);
}

#[test]
fn push_falls_back_to_a_regular_push_with_upstream_retry() {
    let (result, asked) = drive(
        |outs| git_push_to_pr("/repo", 3, outs),
        |inv| match args_of(inv).as_slice() {
            ["pr", "view", ..] => failed("no pull requests found"),
            ["push"] => failed("fatal: The current branch b has no upstream branch."),
            ["push", "-u", "origin", "HEAD"] => ok("set up"),
            other => panic!("unexpected request {other:?}"),
        },
    );
    let result = result.unwrap();
    assert!(result.fell_back);
    assert_eq!(result.output, "set up");
    assert_eq!(asked.len(), 3);
}

#[test]
fn push_reports_unparsable_pr_info() {
    let (result, _) = drive(
        |outs| git_push_to_pr("/repo", 3, outs),
        |_| ok("not json"),
    );
    assert!(result
        .unwrap_err()
        .starts_with("Failed to parse gh pr view output: "));
}

#[test]
fn push_reports_missing_head_branch() {
    let (result, _) = drive(
        |outs| git_push_to_pr("/repo", 3, outs),
        |_| ok(r#"{"isCrossRepository":false}"#),
    );
    assert_eq!(result.unwrap_err(), "Missing headRefName in PR info");
}

// ---------------------------------------------------------------------------
// Branch status
// ---------------------------------------------------------------------------

fn worktree(remote: Option<&str>, branch: Option<&str>) -> ActiveWorktreeInfo {
    ActiveWorktreeInfo {
        worktree_id: "w1".to_string(),
        worktree_path: "/repo".to_string(),
        base_branch: "main".to_string(),
        pr_number: None,
        pr_url: None,
        pr_push_remote: remote.map(str::to_string),
        pr_push_branch: branch.map(str::to_string),
    }
}

#[test]
fn branch_status_counts_untracked_lines_on_a_fresh_feature_branch() {
    let info = worktree(None, None);
    let (status, asked) = drive(
        |outs| branch_status(&info, 1_700_000_000, outs),
        |inv| match (&inv.program, args_of(inv).as_slice()) {
            (Program::ReadFile, ["new.txt"]) => ok("one\ntwo\n"),
            (Program::Git, ["symbolic-ref", "--short", "HEAD"]) => ok("feature\n"),
            (Program::Git, ["ls-files", "--others", "--exclude-standard"]) => ok("new.txt\n"),
            (Program::Git, ["diff", "--numstat"]) => ok(""),
            (Program::Git, ["diff", "--cached", "--numstat"]) => ok(""),
            (Program::Git, ["rev-list", "--count", "main..HEAD"]) => ok("0\n"),
            _ => failed("fatal: no origin"),
        },
    );
    let status = status.unwrap();
    assert_eq!(status.current_branch, "feature");
    assert_eq!(status.uncommitted_added, 2);
    assert_eq!(status.unpushed_count, 0);
    assert_eq!(status.checked_at, 1_700_000_000);
    assert!(!status.has_updates);
    assert!(asked
        .iter()
        .any(|inv| matches!(inv.program, Program::ReadFile)));
}

#[test]
fn branch_status_counts_commits_and_lines() {
    let info = worktree(Some("fork"), Some("topic"));
    let (status, _) = drive(
        |outs| branch_status(&info, 5, outs),
        |inv| match args_of(inv).as_slice() {
            ["symbolic-ref", "--short", "HEAD"] => ok("topic\n"),
            ["rev-list", "--count", "HEAD..origin/main"] => ok("4\n"),
            ["rev-list", "--count", "origin/main..HEAD"] => ok("2\n"),
            ["diff", "--numstat"] => ok("3\t1\ta.txt\n-\t-\tlogo.png\n"),
            ["diff", "--cached", "--numstat"] => ok("5\t2\tb.txt\n"),
            ["ls-files", "--others", "--exclude-standard"] => ok(""),
            ["diff", "--numstat", "origin/main...HEAD"] => ok("10\t4\ta.txt\n1\t0\tb.txt\n"),
            ["rev-list", "--count", "origin/main..main"] => ok("1\n"),
            ["rev-list", "--count", "main..origin/main"] => ok("0\n"),
            ["rev-list", "--count", "main..HEAD"] => ok("6\n"),
            ["rev-parse", "--verify", "--quiet", "fork/topic"] => ok("abc\n"),
            ["rev-list", "--count", "fork/topic..HEAD"] => ok("3\n"),
            _ => ok(""),
        },
    );
    let status = status.unwrap();
    assert_eq!(status.behind_count, 4);
    assert_eq!(status.ahead_count, 2);
    assert!(status.has_updates);
    assert_eq!(status.uncommitted_added, 8);
    assert_eq!(status.uncommitted_removed, 3);
    assert_eq!(status.branch_diff_added, 11);
    assert_eq!(status.branch_diff_removed, 4);
    assert_eq!(status.base_branch_ahead_count, 1);
    assert_eq!(status.base_branch_behind_count, 0);
    assert_eq!(status.worktree_ahead_count, 6);
    assert_eq!(status.unpushed_count, 3);
}

#[test]
fn branch_status_fails_when_no_branch_can_be_read() {
    let info = worktree(None, None);
    let (status, _) = drive(
        |outs| branch_status(&info, 0, outs),
        |_| failed("fatal: not a git repository\n"),
    );
    let error = status.unwrap_err();
    assert!(matches!(error.code, BackendErrorCode::Io));
    assert_eq!(error.message, "fatal: not a git repository");
}

// ---------------------------------------------------------------------------
// Provisioning
// ---------------------------------------------------------------------------

fn server() -> RemoteServerConfig {
    RemoteServerConfig {
        id: "server-id".to_string(),
        name: "Cloud".to_string(),
        host: "example.com".to_string(),
        port: 22,
        username: "jean".to_string(),
        auth: RemoteServerAuth::SshKeyPath {
            path: "/tmp/key".to_string(),
            passphrase: None,
        },
        default: false,
        remote_port: 3456,
        status: RemoteServerStatus::Disconnected,
        http_token: None,
        installed_version: None,
    }
}

fn exec_ok(stdout: &str) -> ProvisionReply {
    ProvisionReply::Exec(Ok(ExecOutput {
        success: true,
        stdout: stdout.to_string(),
        stderr: String::new(),
        status: "exit status: 0".to_string(),
    }))
}

fn run_provision(
    mut answer: impl FnMut(&ProvisionAction) -> ProvisionReply,
) -> (Result<jean_core::provision::ProvisionResult, String>, Vec<ProvisionAction>) {
    let server = server();
    let mut replies = Vec::new();
    let mut actions = Vec::new();
    loop {
        match provision(&server, "secret", &replies) {
            ProvisionAction::Finish(result) => return (result, actions),
            action => {
                replies.push(answer(&action));
                actions.push(action);
            }
        }
    }
}

#[test]
fn provisioning_runs_to_an_active_service() {
    let (result, actions) = run_provision(|action| match action {
        ProvisionAction::Exec(command) if command == "uname -m" => exec_ok("x86_64\n"),
        ProvisionAction::Exec(command) if command.starts_with("systemctl is-active") => {
            exec_ok("active\n")
        }
        ProvisionAction::Exec(_) => exec_ok(""),
        ProvisionAction::Download(arch) => {
            assert_eq!(arch, "x86_64");
            ProvisionReply::Value(Ok("1.2.3".to_string()))
        }
        ProvisionAction::PrepareArtifact => ProvisionReply::Value(Ok("/tmp/artifact".to_string())),
        ProvisionAction::Extract => ProvisionReply::Value(Ok(String::new())),
        ProvisionAction::NewId => ProvisionReply::Value(Ok("abcd".to_string())),
        ProvisionAction::Upload(path) => {
            assert_eq!(path, "/tmp/jean-remote-abcd.AppImage");
            ProvisionReply::Value(Ok(String::new()))
        }
        _ => ProvisionReply::Ack,
    });
    let result = result.unwrap();
    assert!(result.success);
    assert_eq!(result.version, "1.2.3");
    assert_eq!(result.remote_port, 3456);
    assert_eq!(result.service_name, "jean-remote.service");
    assert_eq!(actions.len(), 21);
    let install = actions
        .iter()
        .find_map(|action| match action {
            ProvisionAction::Exec(command) if command.contains("/tmp/jean-remote-abcd.AppImage") => {
                Some(command.clone())
            }
            _ => None,
        })
        .unwrap();
    assert!(install.contains("systemctl enable --now jean-remote.service"));
    assert!(install.contains("1.2.3"));
}

#[test]
fn provisioning_stops_at_a_failed_architecture_check() {
    let (result, actions) = run_provision(|action| match action {
        ProvisionAction::Exec(command) if command == "uname -m" => {
            ProvisionReply::Exec(Ok(ExecOutput {
                success: false,
                stdout: String::new(),
                stderr: "  uname: not found \n".to_string(),
                status: "exit status: 127".to_string(),
            }))
        }
        ProvisionAction::Exec(_) => exec_ok(""),
        _ => ProvisionReply::Ack,
    });
    assert_eq!(
        result.unwrap_err(),
        "Architecture detection failed: uname: not found"
    );
    assert_eq!(actions.len(), 5);
}

#[test]
fn provisioning_reports_an_inactive_service() {
    let (result, _) = run_provision(|action| match action {
        ProvisionAction::Exec(command) if command == "uname -m" => exec_ok("aarch64"),
        ProvisionAction::Exec(command) if command.starts_with("systemctl is-active") => {
            exec_ok("failed\n")
        }
        ProvisionAction::Exec(_) => exec_ok(""),
        ProvisionAction::Download(_) => ProvisionReply::Value(Ok("2.0.0".to_string())),
        ProvisionAction::PrepareArtifact
        | ProvisionAction::Extract
        | ProvisionAction::NewId
        | ProvisionAction::Upload(_) => ProvisionReply::Value(Ok("x".to_string())),
        _ => ProvisionReply::Ack,
    });
    assert_eq!(
        result.unwrap_err(),
        "Jean remote service did not become active (status: failed)"
    );
}

#[test]
fn provisioning_passes_on_a_download_error() {
    let (result, _) = run_provision(|action| match action {
        ProvisionAction::Exec(_) => exec_ok("x86_64"),
        ProvisionAction::Download(_) => {
            ProvisionReply::Value(Err("Release signature is invalid".to_string()))
        }
        _ => ProvisionReply::Ack,
    });
    assert_eq!(result.unwrap_err(), "Release signature is invalid");
}

#[test]
fn failure_text_uses_status_when_stderr_is_blank() {
    assert_eq!(
        failure_text("Service verification failed", " \n", "exit status: 3"),
        "Service verification failed with status exit status: 3"
    );
    assert_eq!(
        failure_text("Service verification failed", " boom\n", "exit status: 3"),
        "Service verification failed: boom"
    );
}

#[test]
fn base64_text_round_trips_and_reports_bad_input() {
    assert_eq!(encode_base64_text("hello"), "aGVsbG8=");
    assert_eq!(decode_base64_text("aGVsbG8=", "unit"), Ok("hello".to_string()));
    assert!(decode_base64_text("!!!", "unit")
        .unwrap_err()
        .starts_with("Invalid unit encoding: "));
    assert!(decode_base64_text("/w==", "unit")
        .unwrap_err()
        .starts_with("Invalid unit text: "));
}

// ---------------------------------------------------------------------------
// Command Code CLI
// ---------------------------------------------------------------------------

#[test]
fn versions_are_read_without_colour_codes_or_leading_v() {
    assert_eq!(
        parse_version("\u{1b}[32mv1.4.2\u{1b}[0m\n"),
        Some("1.4.2".to_string())
    );
    assert_eq!(parse_version("  \n"), None);
    let stripped: String = strip_ansi_chars(&"a\u{1b}[1;31mb\u{1b}c".chars().collect::<Vec<_>>())
        .into_iter()
        .collect();
    assert_eq!(stripped, "abc");
}

#[test]
fn authentication_is_read_from_cli_output() {
    assert!(looks_authenticated("Logged in as dev"));
    assert!(looks_authenticated("user: dev@example.com"));
    assert!(!looks_authenticated("Not logged in"));
    assert!(!looks_authenticated("Error: login required, you are NOT AUTHENTICATED"));
    assert!(!looks_authenticated("hello"));
}

#[test]
fn cli_install_check_reads_the_version() {
    let (absent, asked) = drive(
        |outs| check_commandcode_cli_installed("/usr/bin/cmd", false, outs),
        |_| ok(""),
    );
    assert!(!absent.installed);
    assert!(asked.is_empty());

    let (present, asked) = drive(
        |outs| check_commandcode_cli_installed("/usr/bin/cmd", true, outs),
        |_| ok("v0.9.1\n"),
    );
    assert!(present.installed);
    assert_eq!(present.version.as_deref(), Some("0.9.1"));
    assert_eq!(present.path.as_deref(), Some("/usr/bin/cmd"));
    assert_eq!(args_of(&asked[0]), vec!["--version"]);
}

// ---------------------------------------------------------------------------
// Command line of the server
// ---------------------------------------------------------------------------

fn no_env() -> ServerEnv {
    ServerEnv {
        host: None,
        port: None,
        token: None,
        no_token: None,
        data_dir: None,
    }
}

fn words(list: &[&str]) -> Vec<String> {
    list.iter().map(|word| word.to_string()).collect()
}

#[test]
fn cli_defaults_generate_a_token() {
    match parse_cli_args(&no_env(), &Vec::new()).unwrap() {
        CliCommand::Serve(args) => {
            assert_eq!(args.host, "127.0.0.1");
            assert_eq!(args.port, 3456);
            assert!(args.token_required);
            assert_eq!(args.token.len(), 43);
            assert_eq!(args.data_dir, None);
        }
        CliCommand::Help => panic!("expected settings"),
    }
}

#[test]
fn cli_flags_override_the_environment() {
    let env = ServerEnv {
        host: Some("0.0.0.0".to_string()),
        port: Some("4000".to_string()),
        token: Some("from-env".to_string()),
        no_token: None,
        data_dir: None,
    };
    let args = words(&["--port", "5000", "--token", "t", "--data-dir", "/data"]);
    match parse_cli_args(&env, &args).unwrap() {
        CliCommand::Serve(args) => {
            assert_eq!(args.host, "0.0.0.0");
            assert_eq!(args.port, 5000);
            assert_eq!(args.token, "t");
            assert_eq!(args.data_dir.as_deref(), Some("/data"));
        }
        CliCommand::Help => panic!("expected settings"),
    }
}

#[test]
fn cli_without_token_keeps_it_empty() {
    match parse_cli_args(&no_env(), &words(&["--no-token"])).unwrap() {
        CliCommand::Serve(args) => {
            assert!(!args.token_required);
            assert_eq!(args.token, "");
        }
        CliCommand::Help => panic!("expected settings"),
    }
    let env = ServerEnv {
        no_token: Some("1".to_string()),
        ..no_env()
    };
    match parse_cli_args(&env, &Vec::new()).unwrap() {
        CliCommand::Serve(args) => assert!(!args.token_required),
        CliCommand::Help => panic!("expected settings"),
    }
}

#[test]
fn cli_help_and_errors() {
    assert!(matches!(
        parse_cli_args(&no_env(), &words(&["--host", "h", "-h"])),
        Ok(CliCommand::Help)
    ));
    assert_eq!(
        parse_cli_args(&no_env(), &words(&["--bogus"])).unwrap_err(),
        "Unknown argument: --bogus"
    );
    assert_eq!(
        parse_cli_args(&no_env(), &words(&["--host"])).unwrap_err(),
        "--host requires a value"
    );
    assert!(parse_cli_args(&no_env(), &words(&["--port", "70000"]))
        .unwrap_err()
        .starts_with("Invalid --port: "));
    let env = ServerEnv {
        port: Some("x".to_string()),
        ..no_env()
    };
    assert!(parse_cli_args(&env, &Vec::new()).is_err());
}

// ---------------------------------------------------------------------------
// Repositories
// ---------------------------------------------------------------------------

#[test]
fn init_repo_creates_the_directory_and_a_first_commit() {
    let (result, asked) = drive(|outs| init_repo("/new", false, false, outs), |_| ok(""));
    assert_eq!(result, Ok(()));
    assert!(matches!(asked[0].program, Program::CreateDirAll));
    assert_eq!(args_of(&asked[1]), vec!["init"]);
    assert!(matches!(asked[2].program, Program::WriteFile));
    assert_eq!(args_of(&asked[3]), vec!["add", ".gitkeep"]);
    assert_eq!(
        args_of(&asked[4]),
        vec!["commit", "-m", "jean's init vibe commit"]
    );
}

#[test]
fn init_repo_refuses_a_repository_with_commits() {
    let (result, asked) = drive(|outs| init_repo("/old", true, true, outs), |_| ok("abc\n"));
    assert_eq!(
        result,
        Err("Directory is already a git repository".to_string())
    );
    assert_eq!(args_of(&asked[0]), vec!["rev-parse", "HEAD"]);
}

#[test]
fn init_repo_reports_a_failed_init() {
    let (result, _) = drive(
        |outs| init_repo("/x", true, false, outs),
        |_| failed("permission denied"),
    );
    assert_eq!(result, Err("git init failed: permission denied".to_string()));
}

#[test]
fn clone_repo_checks_the_url_and_destination() {
    let (result, asked) = drive(
        |outs| clone_repo("ftp://host/repo", "/dest", false, None, outs),
        |_| ok(""),
    );
    assert_eq!(
        result,
        Err("Invalid git URL. Use HTTPS (https://...) or SSH (git@...) format.".to_string())
    );
    assert!(asked.is_empty());

    let (result, _) = drive(
        |outs| clone_repo("https://github.com/a/b.git", "/dest", true, None, outs),
        |_| ok(""),
    );
    assert_eq!(result, Err("Destination already exists: /dest".to_string()));

    let (result, asked) = drive(
        |outs| clone_repo(" git@github.com:a/b.git ", "/p/dest", false, Some("/p"), outs),
        |_| ok(""),
    );
    assert_eq!(result, Ok(()));
    assert!(matches!(asked[0].program, Program::CreateDirAll));
    assert_eq!(
        args_of(&asked[1]),
        vec!["clone", "git@github.com:a/b.git", "/p/dest"]
    );
}

#[test]
fn validate_git_repo_reports_missing_paths() {
    assert_eq!(
        validate_git_repo("/nope", false, false, false),
        Err("Path does not exist: /nope".to_string())
    );
    assert_eq!(
        validate_git_repo("/file", true, false, false),
        Err("Path is not a directory: /file".to_string())
    );
    assert_eq!(validate_git_repo("/dir", true, true, true), Ok(true));
    assert_eq!(validate_git_repo("/dir", true, true, false), Ok(false));
}

// ---------------------------------------------------------------------------
// Scripts
// ---------------------------------------------------------------------------

#[test]
fn script_service_validates_paths_and_exposes_jean_environment() {
    let temp = tempfile::tempdir().unwrap();
    let path = temp.path().to_str().unwrap();
    let (output, asked) = drive(
        |outs| {
            run_setup_script(
                path,
                path,
                "feature/shared",
                "printf '%s' \"$JEAN_BRANCH\"",
                None,
                outs,
            )
        },
        |inv| {
            let branch = inv
                .env
                .iter()
                .find(|(key, _)| key == "JEAN_BRANCH")
                .map(|(_, value)| value.clone())
                .unwrap_or_default();
            ok(&branch)
        },
    );
    assert_eq!(output.unwrap(), "feature/shared");
    assert_eq!(asked[0].dir.as_deref(), Some(path));
    let (refused, asked) = drive(
        |outs| run_setup_script("relative", path, "main", "true", None, outs),
        |_| ok(""),
    );
    assert!(refused.is_err());
    assert!(asked.is_empty());
}

#[test]
fn scripts_run_in_a_login_shell_when_it_supports_one() {
    assert_eq!(user_shell(None), ("/bin/sh".to_string(), false));
    assert_eq!(user_shell(Some("/bin/zsh")), ("/bin/zsh".to_string(), true));
    let (_, asked) = drive(
        |outs| run_script("setup", "/w", "/r", "b", "make", Some("/bin/bash"), outs),
        |_| ok(""),
    );
    assert!(matches!(&asked[0].program, Program::Path(shell) if shell == "/bin/bash"));
    assert_eq!(args_of(&asked[0]), vec!["-l", "-i", "-c", "make"]);
}

#[test]
fn failing_scripts_report_their_output() {
    let (result, _) = drive(
        |outs| run_script("teardown", "/w", "/r", "b", "exit 1", None, outs),
        |_| {
            Ok(Output {
                success: false,
                stdout: "partial ".to_string(),
                stderr: "broken\n".to_string(),
            })
        },
    );
    let error = result.unwrap_err();
    assert!(matches!(error.code, BackendErrorCode::Io));
    assert_eq!(error.message, "teardown script failed:\npartial broken");
    let (result, _) = drive(
        |outs| run_script("setup", "", "/r", "b", "true", None, outs),
        |_| ok(""),
    );
    assert!(matches!(
        result.unwrap_err().code,
        BackendErrorCode::InvalidArgument
    ));
}

// ---------------------------------------------------------------------------
// Events
// ---------------------------------------------------------------------------

#[test]
fn event_frames_have_sorted_keys() {
    assert_eq!(
        event_json("chat:chunk", "{\"a\":1}", 42),
        "{\"event\":\"chat:chunk\",\"payload\":{\"a\":1},\"seq\":42,\"type\":\"event\"}"
    );
    assert_eq!(
        event_json("a\"b\n", "null", 1),
        "{\"event\":\"a\\\"b\\n\",\"payload\":null,\"seq\":1,\"type\":\"event\"}"
    );
}

#[test]
fn broadcasts_are_numbered_and_framed_only_when_active() {
    let mut broadcaster = WsBroadcaster::new();
    assert!(broadcaster
        .broadcast("chat:chunk", "{\"session_id\":\"s\"}")
        .is_none());
    broadcaster.set_active(true);
    let first = broadcaster
        .broadcast("chat:chunk", "{\"session_id\":\"s\"}")
        .unwrap();
    let second = broadcaster.broadcast("other:event", "null").unwrap();
    assert_eq!(second.seq, first.seq + 1);
    assert_eq!(
        second.json,
        format!(
            "{{\"event\":\"other:event\",\"payload\":null,\"seq\":{},\"type\":\"event\"}}",
            second.seq
        )
    );
}

#[test]
fn replay_returns_the_recorded_event_after_a_given_number() {
    let mut broadcaster = WsBroadcaster::new();
    broadcaster.set_active(true);
    let first = broadcaster
        .broadcast("chat:chunk", "{\"session_id\":\"s\"}")
        .unwrap();
    let second = broadcaster
        .broadcast("chat:chunk", "{\"session_id\":\"s\",\"x\":2}")
        .unwrap();
    let replay = broadcaster.replay_events("s", first.seq);
    assert_eq!(replay.len(), 1);
    assert_eq!(replay[0].seq, second.seq);
    assert_eq!(replay[0].json, second.json);
    assert!(broadcaster.replay_events("other", 0).is_empty());
}

#[test]
fn session_buffer_keeps_only_the_newest_events() {
    let mut broadcaster = WsBroadcaster::new();
    broadcaster.set_active(true);
    for _ in 0..(SESSION_BUFFER_CAP + 5) {
        broadcaster.broadcast("chat:chunk", "{\"session_id\":\"s\"}");
    }
    let replay = broadcaster.replay_events("s", 0);
    assert_eq!(replay.len(), SESSION_BUFFER_CAP);
    assert_eq!(replay[0].seq, 6);
}

#[test]
fn terminal_stop_clears_its_buffer() {
    let mut broadcaster = WsBroadcaster::new();
    broadcaster.set_active(true);
    broadcaster.broadcast("terminal:output", "{\"terminal_id\":\"t\",\"data\":\"x\"}");
    assert_eq!(broadcaster.replay_terminal_events("t", 0).len(), 1);
    broadcaster.broadcast("terminal:stopped", "{\"terminal_id\":\"t\"}");
    assert!(broadcaster.replay_terminal_events("t", 0).is_empty());
}

#[test]
fn registry_register_then_unregister_restores_it() {
    let mut registry = ResourceRegistry::new();
    assert!(registry.register("a".to_string()));
    assert!(registry.register("b".to_string()));
    assert!(!registry.register("b".to_string()));
    assert_eq!(registry.len(), 2);
    assert!(registry.unregister("b"));
    assert!(!registry.unregister("b"));
    assert!(!registry.contains("b"));
    assert!(registry.contains("a"));
    assert_eq!(registry.len(), 1);
}

// ---------------------------------------------------------------------------
// Linear
// ---------------------------------------------------------------------------

#[test]
fn linear_identifiers_and_file_names() {
    assert_eq!(parse_linear_identifier_number("ENG-42"), 42);
    assert_eq!(parse_linear_identifier_number("A-B-7"), 7);
    assert_eq!(parse_linear_identifier_number("ENG"), 0);
    assert_eq!(parse_linear_identifier_number("ENG-x"), 0);
    assert_eq!(
        linear_context_file_name("my-project", "ENG-42"),
        "my-project-linear-eng-42.md"
    );
}

#[test]
fn linear_images_are_cached_under_their_url_hash() {
    assert_eq!(
        linear_image_cache_name("abc", Some("image/png")),
        "ba7816bf8f01cfea414140de5dae2223b00361a396177a9cb410ff61f20015ad.png"
    );
    assert!(linear_image_cache_name("https://uploads.linear.app/x.JPEG", None).ends_with(".jpg"));
    assert!(linear_image_cache_name("https://uploads.linear.app/x", None).ends_with(".bin"));
}

#[test]
fn rewriting_without_replacements_keeps_the_text() {
    let markdown = "![a](https://uploads.linear.app/a.png) and <img src=\"https://uploads.linear.app/b.jpg\">";
    assert_eq!(rewrite_linear_image_urls(markdown, &Vec::new()), markdown);
}

// ---------------------------------------------------------------------------
// Errors
// ---------------------------------------------------------------------------

#[test]
fn unsupported_capabilities_name_themselves() {
    let error = BackendError::unsupported("tunnels");
    assert!(matches!(error.code, BackendErrorCode::Unsupported));
    assert_eq!(
        error.to_message(),
        "Capability 'tunnels' is not available in headless mode"
    );
}

// ---------------------------------------------------------------------------
// Caching Linear images
// ---------------------------------------------------------------------------

fn run_image_download(
    url: &str,
    mut answer: impl FnMut(&ImageAction) -> ImageReply,
) -> (Result<String, String>, Vec<ImageAction>) {
    let mut replies = Vec::new();
    let mut actions = Vec::new();
    loop {
        match download_linear_context_image(url, "lin_key", &replies) {
            ImageAction::Finish(result) => return (result, actions),
            action => {
                replies.push(answer(&action));
                actions.push(action);
            }
        }
    }
}

fn image_head(status: u16, text: &str, content_type: Option<&str>) -> ImageReply {
    ImageReply::Response(Ok(ImageResponse {
        status,
        status_text: text.to_string(),
        content_type: content_type.map(str::to_string),
    }))
}

#[test]
fn image_download_stores_a_new_image_under_its_hash() {
    let url = "https://uploads.linear.app/a.png";
    let mut chunks = vec![Some(10u64), Some(20), None].into_iter();
    let (result, actions) = run_image_download(url, |action| match action {
        ImageAction::Get { url: u, authorization } => {
            assert_eq!(u, url);
            assert_eq!(authorization, "lin_key");
            image_head(200, "200 OK", Some("image/png"))
        }
        ImageAction::ReadChunk => ImageReply::Chunk(Ok(chunks.next().unwrap())),
        ImageAction::CheckExists(_) => ImageReply::Exists(false),
        _ => ImageReply::Done(Ok(())),
    });
    let name = result.unwrap();
    assert_eq!(name, linear_image_cache_name(url, Some("image/png")));
    assert!(name.ends_with(".png"));
    assert!(matches!(actions.last(), Some(ImageAction::Write(n)) if *n == name));
    assert_eq!(actions.len(), 7);
}

#[test]
fn image_download_keeps_an_existing_file() {
    let (result, actions) = run_image_download("https://uploads.linear.app/b", |action| {
        match action {
            ImageAction::Get { .. } => image_head(200, "200 OK", None),
            ImageAction::ReadChunk => ImageReply::Chunk(Ok(None)),
            ImageAction::CheckExists(_) => ImageReply::Exists(true),
            _ => ImageReply::Done(Ok(())),
        }
    });
    assert!(result.unwrap().ends_with(".bin"));
    assert!(!actions.iter().any(|a| matches!(a, ImageAction::Write(_))));
}

#[test]
fn image_download_refusals() {
    let (result, actions) = run_image_download("http://uploads.linear.app/a.png", |_| {
        ImageReply::Done(Ok(()))
    });
    assert_eq!(
        result.unwrap_err(),
        "Refusing untrusted Linear image URL: http://uploads.linear.app/a.png"
    );
    assert!(actions.is_empty());

    let (result, _) = run_image_download("https://uploads.linear.app/a.png", |_| {
        image_head(404, "404 Not Found", Some("text/html"))
    });
    assert_eq!(
        result.unwrap_err(),
        "Linear image download failed with status 404 Not Found"
    );

    let (result, _) = run_image_download("https://uploads.linear.app/a.png", |_| {
        image_head(200, "200 OK", Some("text/html; charset=utf-8"))
    });
    assert_eq!(
        result.unwrap_err(),
        "Linear image URL returned non-image content type: text/html; charset=utf-8"
    );

    let (result, _) = run_image_download("https://uploads.linear.app/a.png", |action| {
        match action {
            ImageAction::Get { .. } => image_head(200, "200 OK", Some("image/png")),
            _ => ImageReply::Chunk(Ok(Some(8 * 1024 * 1024))),
        }
    });
    assert_eq!(result.unwrap_err(), "Linear image is too large to cache");

    let (result, _) = run_image_download("https://uploads.linear.app/a.png", |action| {
        match action {
            ImageAction::Get { .. } => ImageReply::Response(Err("timed out".to_string())),
            _ => ImageReply::Done(Ok(())),
        }
    });
    assert_eq!(
        result.unwrap_err(),
        "Failed to download Linear image: timed out"
    );
}

#[test]
fn only_uncached_trusted_images_are_downloaded() {
    let markdown = "![a](https://uploads.linear.app/a.png) ![b](https://uploads.linear.app/b.png) ![c](https://example.com/c.png) ![a](https://uploads.linear.app/a.png)";
    let cached = vec![(
        "https://uploads.linear.app/a.png".to_string(),
        "/cache/a.png".to_string(),
    )];
    assert_eq!(
        uncached_image_urls(markdown, &cached),
        vec!["https://uploads.linear.app/b.png".to_string()]
    );
    assert_eq!(uncached_image_urls(markdown, &Vec::new()).len(), 2);
}

#[test]
fn git_dirs_are_resolved_relative_to_the_working_directory() {
    let (dirs, asked) = drive(
        |outs| resolve_git_dirs("/repo/wt", outs),
        |inv| match (&inv.program, args_of(inv).as_slice()) {
            (Program::Git, ["rev-parse", "--git-dir", "--git-common-dir"]) => {
                ok("/repo/.git/worktrees/wt\n../.git\n")
            }
            (Program::Canonicalize, ["/repo/.git/worktrees/wt"]) => ok("/repo/.git/worktrees/wt"),
            (Program::Canonicalize, ["../.git"]) => ok("/repo/.git"),
            other => panic!("unexpected request {other:?}"),
        },
    );
    assert_eq!(
        dirs,
        Some((
            "/repo/.git/worktrees/wt".to_string(),
            "/repo/.git".to_string()
        ))
    );
    assert_eq!(asked[1].dir.as_deref(), Some("/repo/wt"));

    let (dirs, _) = drive(
        |outs| resolve_git_dirs("/tmp", outs),
        |_| failed("fatal: not a git repository"),
    );
    assert_eq!(dirs, None);
    let (dirs, _) = drive(|outs| resolve_git_dirs("/tmp", outs), |_| ok(".git\n"));
    assert_eq!(dirs, None);
}

// ---------------------------------------------------------------------------
// Linear reads
// ---------------------------------------------------------------------------

fn text(s: &str) -> Json {
    Json::String(s.to_string())
}

fn object(members: Vec<(&str, Json)>) -> Json {
    Json::Object(
        members
            .into_iter()
            .map(|(key, value)| (key.to_string(), value))
            .collect(),
    )
}

fn sample_issue() -> Json {
    object(vec![
        ("id", text("issue-id")),
        ("identifier", text("ENG-42")),
        ("title", text("Shared Linear")),
        ("description", text("body")),
        (
            "state",
            object(vec![
                ("name", text("Todo")),
                ("type", text("unstarted")),
                ("color", text("#fff")),
            ]),
        ),
        (
            "labels",
            object(vec![(
                "nodes",
                Json::Array(vec![object(vec![("name", text("bug")), ("color", text("#f00"))])]),
            )]),
        ),
        (
            "assignee",
            object(vec![("name", text("octo")), ("displayName", text("Octo"))]),
        ),
        ("createdAt", text("2026-01-01")),
        ("url", text("https://linear.app/issue/ENG-42")),
        ("priority", Json::Number("2".to_string())),
        ("priorityLabel", text("High")),
        (
            "comments",
            object(vec![(
                "nodes",
                Json::Array(vec![object(vec![
                    ("body", text("comment")),
                    ("user", Json::Null),
                    ("createdAt", text("2026-01-02")),
                ])]),
            )]),
        ),
    ])
}

fn data(field: &str, value: Json) -> Json {
    object(vec![("data", object(vec![(field, value)]))])
}

#[test]
fn linear_reads_share_config_requests_and_parsing() {
    let projects = vec![object(vec![
        ("id", text("project")),
        ("name", text("Jean")),
        ("linear_team_id", text("team")),
        ("linear_api_key", text("project-key")),
    ])];
    let preferences = object(vec![("linear_api_key", text("global-key"))]);
    let config = linear_config(&projects, "project", Some(&preferences)).unwrap();
    assert_eq!(config.api_key, "project-key");
    assert_eq!(config.team_id.as_deref(), Some("team"));

    let teams_request = list_teams_request(&config);
    assert!(teams_request.query.contains("ListTeams"));
    let teams = parse_teams_response(&data(
        "teams",
        object(vec![(
            "nodes",
            Json::Array(vec![object(vec![
                ("id", text("team")),
                ("name", text("Engineering")),
                ("key", text("ENG")),
            ])]),
        )]),
    ))
    .unwrap();
    assert_eq!(teams[0].key, "ENG");

    let list_request = list_issues_request(&config);
    assert_eq!(
        list_request
            .variables
            .as_ref()
            .unwrap()
            .str_member("teamId")
            .as_deref(),
        Some("team")
    );
    let list = parse_issue_list_response(&data(
        "issues",
        object(vec![("nodes", Json::Array(vec![sample_issue()]))]),
    ))
    .unwrap();
    assert_eq!(list.issues[0].identifier, "ENG-42");
    assert_eq!(list.issues[0].priority, 2);

    let search_request = search_issues_request(&config, "shared");
    assert_eq!(
        search_request
            .variables
            .as_ref()
            .unwrap()
            .str_member("query")
            .as_deref(),
        Some("shared")
    );
    let found = parse_search_response(&data(
        "issueSearch",
        object(vec![("nodes", Json::Array(vec![sample_issue()]))]),
    ))
    .unwrap();
    assert_eq!(found[0].title, "Shared Linear");

    let issue_req = issue_request(&config, "issue-id");
    assert!(issue_req.query.contains("issue(id:"));
    let detail = parse_issue_detail_response(&data("issue", sample_issue())).unwrap();
    assert_eq!(detail.comments.len(), 1);
    assert_eq!(detail.labels[0].name, "bug");

    let by_number = issue_by_number_request(&config, 42);
    assert!(matches!(
        by_number.variables.as_ref().unwrap().get("number"),
        Some(Json::Number(n)) if n == "42"
    ));
    let issue = parse_issue_by_number_response(&data(
        "issues",
        object(vec![("nodes", Json::Array(vec![sample_issue()]))]),
    ))
    .unwrap()
    .unwrap();
    assert_eq!(issue.id, "issue-id");

    for request in [&teams_request, &list_request, &search_request, &issue_req, &by_number] {
        assert_eq!(request.api_key, "project-key");
    }
}

#[test]
fn linear_config_falls_back_to_the_global_key() {
    let projects = vec![object(vec![("id", text("p")), ("name", text("Jean"))])];
    let preferences = object(vec![("linear_api_key", text("global-key"))]);
    let config = linear_config(&projects, "p", Some(&preferences)).unwrap();
    assert_eq!(config.api_key, "global-key");
    assert_eq!(config.team_id, None);
    assert!(linear_config(&projects, "p", None).is_err());
    assert!(linear_config(&projects, "missing", Some(&preferences)).is_err());
}

// ---------------------------------------------------------------------------
// Laws on concrete values
// ---------------------------------------------------------------------------

#[test]
fn a_stream_cut_inside_a_character_decodes_whole() {
    let text = "a😀b€";
    let bytes = text.as_bytes();
    for cut in 0..=bytes.len() {
        let mut decoder = Utf8StreamDecoder::new();
        let first = decoder.decode(&bytes[..cut]).unwrap_or_default();
        let second = decoder.decode(&bytes[cut..]).unwrap_or_default();
        assert_eq!(format!("{first}{second}"), text);
        assert_eq!(decoder.finish(), None);
    }
}

#[test]
fn replay_below_the_cap_keeps_every_event_in_order() {
    let mut broadcaster = WsBroadcaster::new();
    broadcaster.set_active(true);
    let mut sent = Vec::new();
    for i in 0..3 {
        let payload = format!("{{\"session_id\":\"s\",\"i\":{i}}}");
        sent.push(broadcaster.broadcast("chat:chunk", &payload).unwrap());
    }
    let replay = broadcaster.replay_events("s", 0);
    assert_eq!(replay.len(), 3);
    for (got, want) in replay.iter().zip(&sent) {
        assert_eq!(got.seq, want.seq);
        assert_eq!(got.json, want.json);
    }
    assert_eq!(broadcaster.replay_events("s", sent[1].seq).len(), 1);
}

#[test]
fn a_session_reads_back_the_references_it_records() {
    let mut refs: Vec<(String, ContextReference)> = Vec::new();
    add_linear_reference(&mut refs, "jean", "ENG-1", "s1");
    add_linear_reference(&mut refs, "jean", "ENG-1", "s2");
    add_linear_reference(&mut refs, "jean", "ENG-2", "s1");
    add_linear_reference(&mut refs, "jean", "ENG-1", "s1");
    assert_eq!(refs.len(), 2);
    assert_eq!(
        get_session_linear_refs(&refs, "s1"),
        vec!["jean-ENG-1".to_string(), "jean-ENG-2".to_string()]
    );
    assert!(!remove_linear_reference(&mut refs, "jean", "ENG-1", "s1", 100));
    assert_eq!(get_session_linear_refs(&refs, "s1"), vec!["jean-ENG-2".to_string()]);
    assert_eq!(get_session_linear_refs(&refs, "s2"), vec!["jean-ENG-1".to_string()]);
    assert!(remove_linear_reference(&mut refs, "jean", "ENG-1", "s2", 100));
    assert_eq!(refs[0].1.orphaned_at, Some(100));
    assert!(get_session_linear_refs(&refs, "s2").is_empty());
}

#[test]
fn shell_quoting_escapes_single_quotes() {
    assert_eq!(shell_quote("plain"), "'plain'");
    assert_eq!(shell_quote("it's"), "'it'\\''s'");
    assert_eq!(shell_quote(""), "''");
}

#[test]
fn only_a_regular_appimage_file_is_installed() {
    assert!(is_appimage_entry(true, "jean_1.2.3_amd64.AppImage"));
    assert!(!is_appimage_entry(false, "jean.AppImage"));
    assert!(!is_appimage_entry(true, "jean.AppImage.sig"));
    assert!(!is_appimage_entry(true, "jean.appimage"));
}

#[test]
fn rename_branch_returns_the_old_name() {
    let suffixes: Vec<String> = (0..10).map(|i| format!("s{i:03}")).collect();
    let (result, asked) = drive(
        |outs| rename_branch("/repo", "feature/new", &suffixes, outs),
        |inv| match args_of(inv).as_slice() {
            ["symbolic-ref", "--short", "HEAD"] => ok("old-branch\n"),
            ["rev-parse", "--verify", "refs/heads/feature/new"] => failed("fatal: Needed a single revision"),
            ["branch", "-m", "feature/new"] => ok(""),
            other => panic!("unexpected request {other:?}"),
        },
    );
    assert_eq!(result, Ok("old-branch".to_string()));
    assert_eq!(asked.len(), 3);

    let (result, asked) = drive(
        |outs| rename_branch("/repo", "taken", &suffixes, outs),
        |inv| match args_of(inv).as_slice() {
            ["symbolic-ref", "--short", "HEAD"] => ok("old-branch\n"),
            ["rev-parse", "--verify", "refs/heads/taken"] => ok("abc"),
            ["rev-parse", "--verify", "refs/heads/taken-s000"] => ok("abc"),
            ["rev-parse", "--verify", "refs/heads/taken-s001"] => failed("fatal"),
            ["branch", "-m", "taken-s001"] => ok(""),
            other => panic!("unexpected request {other:?}"),
        },
    );
    assert_eq!(result, Ok("old-branch".to_string()));
    assert_eq!(asked.len(), 5);

    let (result, _) = drive(
        |outs| rename_branch("/repo", "x", &suffixes, outs),
        |_| failed("fatal: ref HEAD is not a symbolic ref"),
    );
    assert_eq!(result, Err("Cannot rename branch: HEAD is detached".to_string()));
}

#[test]
fn artifact_signatures_must_decode_and_verify() {
    assert!(verify_artifact(b"artifact", "!!!")
        .unwrap_err()
        .starts_with("Invalid release signature encoding: "));
    let not_a_signature = encode_base64_text("not a signature");
    assert!(verify_artifact(b"artifact", &not_a_signature)
        .unwrap_err()
        .starts_with("Invalid release signature: "));
}

#[test]
fn directories_are_resolved_in_order_under_the_identifier() {
    let base = |s: &str| Some(PathBuf::from(s));
    let paths = HeadlessAppPaths::resolve_from(
        "com.jean.desktop",
        base("/d"),
        base("/c"),
        base("/k"),
        None,
        PathBuf::from("/res"),
    )
    .unwrap();
    assert_eq!(paths.data_dir().unwrap(), PathBuf::from("/d/com.jean.desktop"));
    assert_eq!(paths.config_dir().unwrap(), PathBuf::from("/c/com.jean.desktop"));
    assert_eq!(paths.cache_dir().unwrap(), PathBuf::from("/k/com.jean.desktop"));
    assert_eq!(paths.resource_dir().unwrap(), PathBuf::from("/res"));

    let error = |d, c, k, o| {
        HeadlessAppPaths::resolve_from("id", d, c, k, o, PathBuf::from("."))
            .err()
            .map(|e| e.message)
    };
    assert_eq!(
        error(None, None, None, None).as_deref(),
        Some("Unable to resolve the system data directory")
    );
    assert_eq!(
        error(None, None, base("/k"), base("/explicit")).as_deref(),
        Some("Unable to resolve the system config directory")
    );
    assert_eq!(
        error(base("/d"), base("/c"), None, None).as_deref(),
        Some("Unable to resolve the system cache directory")
    );
    let explicit = HeadlessAppPaths::resolve_from("id", None, base("/c"), base("/k"), base("/x"), PathBuf::from("."))
        .unwrap();
    assert_eq!(explicit.data_dir().unwrap(), PathBuf::from("/x"));
}

#[test]
fn registry_count_follows_registration() {
    let mut registry = ResourceRegistry::new();
    assert!(registry.is_empty());
    registry.register("a".to_string());
    registry.register("a".to_string());
    assert_eq!(registry.len(), 1);
    registry.unregister("missing");
    assert_eq!(registry.len(), 1);
    registry.unregister("a");
    assert!(registry.is_empty());
}

// ---------------------------------------------------------------------------
// Image references against the regular expressions they are read by
// ---------------------------------------------------------------------------

type Pieces = (Vec<(String, String, String, String)>, String);

fn markdown_by_regex(text: &str) -> Pieces {
    let re = regex::Regex::new(r"!\[([^\]]*)\]\(\s*<?([^)\s>]+)>?\s*\)").unwrap();
    let mut parts = Vec::new();
    let mut last = 0;
    for c in re.captures_iter(text) {
        let m = c.get(0).unwrap();
        parts.push((
            text[last..m.start()].to_string(),
            m.as_str().to_string(),
            c.get(1).map_or("", |g| g.as_str()).to_string(),
            c.get(2).map_or("", |g| g.as_str()).to_string(),
        ));
        last = m.end();
    }
    (parts, text[last..].to_string())
}

fn html_by_regex(text: &str) -> Pieces {
    let re = regex::Regex::new(r#"(<img\b[^>]*\bsrc\s*=\s*["'])([^"']+)(["'][^>]*>)"#).unwrap();
    let mut parts = Vec::new();
    let mut last = 0;
    for c in re.captures_iter(text) {
        let m = c.get(0).unwrap();
        parts.push((
            text[last..m.start()].to_string(),
            c.get(1).unwrap().as_str().to_string(),
            c.get(2).unwrap().as_str().to_string(),
            c.get(3).unwrap().as_str().to_string(),
        ));
        last = m.end();
    }
    (parts, text[last..].to_string())
}

const IMAGE_SAMPLES: &[&str] = &[
    "",
    "plain text",
    "![a](https://uploads.linear.app/a.png)",
    "x ![alt text]( <https://u/a.png> ) y ![b](c)",
    "![a](<)",
    "![a](<<b>)",
    "![a](b c)",
    "![a](b>)",
    "![a](b>>)",
    "![a]\n(b)",
    "![a](\u{3000}b\u{3000})",
    "![[x]](y) ![x]](y)",
    "!![a](b)![c](d)",
    "![a](b",
    "![é](ü/ñ.png)",
    "<img src=\"a.png\">",
    "<img alt='x' src='b.jpg' />",
    "<img src=\"a\" data-src=\"b\">",
    "<img data-src=\"a\" src=\"b\">",
    "<imgsrc=\"a\">",
    "<img\tsrc = 'a' >",
    "<img src=\"\">",
    "<img src=\"a> b\" title=x>",
    "<img src=\"a\" <img src=\"b\">",
    "<img src=a>",
    "<img é src=\"ü\">",
    "<imgé src=\"ü\">",
    "<img xsrc=\"a\">",
    "<img _src=\"a\" src=\"b\">",
    "<img src=\"a\"",
    "Before ![shot](https://uploads.linear.app/a.png) after <img alt=\"diagram\" src=\"https://uploads.linear.app/b.jpg\" />",
];

#[test]
fn image_references_are_read_as_the_regular_expressions_read_them() {
    for sample in IMAGE_SAMPLES {
        assert_eq!(markdown_image_captures(sample), markdown_by_regex(sample), "{sample:?}");
        assert_eq!(html_image_captures(sample), html_by_regex(sample), "{sample:?}");
    }
}

#[test]
fn going_without_a_token_is_refused_off_loopback() {
    let on = |host: &str| {
        let env = ServerEnv {
            host: Some(host.to_string()),
            ..no_env()
        };
        parse_cli_args(&env, &words(&["--no-token"]))
    };
    for host in ["127.0.0.1", "127.1.2.3", "localhost", "::1"] {
        assert!(matches!(on(host), Ok(CliCommand::Serve(_))), "{host}");
    }
    for host in ["0.0.0.0", "192.168.1.4", "127.0.0.256", "127.0.0.01", "127.0.0", "example.com"] {
        assert_eq!(
            on(host).unwrap_err(),
            format!("--no-token is only allowed on a loopback host, not {host}")
        );
    }
    let env = ServerEnv {
        host: Some("0.0.0.0".to_string()),
        ..no_env()
    };
    assert!(matches!(parse_cli_args(&env, &Vec::new()), Ok(CliCommand::Serve(_))));
}
