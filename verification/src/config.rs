//! Project configuration (`jean.json`) and the setup / teardown scripts it names.
use crate::error::{BackendError, BackendErrorCode};
use crate::process::{
    cat, cat3, own, strs, Invocation, InvocationView, Next, Outcome, Program, ProgramView, Step,
};
use crate::text::{chars_of, ends, ends_with_str, push_str, string_of, trim, trimmed};
use vstd::prelude::*;

verus! {

/// A port the project exposes.
#[derive(Clone, Debug)]
pub struct PortEntry {
    pub port: u16,
    pub label: String,
    pub host: Option<String>,
}

/// The contents of a worktree's `jean.json`.
#[derive(Clone, Debug)]
pub struct JeanConfig {
    pub scripts: JeanScripts,
    pub ports: Option<Vec<PortEntry>>,
}

/// The `run` entry: one command or several.
#[derive(Clone, Debug)]
pub enum RunScript {
    Single(String),
    Multiple(Vec<String>),
}

/// The scripts a project configures.
#[derive(Clone, Debug)]
pub struct JeanScripts {
    pub setup: Option<String>,
    pub teardown: Option<String>,
    pub run: Option<RunScript>,
}

impl Default for JeanScripts {
    fn default() -> (s: Self)
        ensures
            s.setup is None,
            s.teardown is None,
            s.run is None,
    {
        JeanScripts { setup: None, teardown: None, run: None }
    }
}

impl Default for JeanConfig {
    fn default() -> (c: Self)
        ensures
            c.scripts.setup is None,
            c.scripts.teardown is None,
            c.scripts.run is None,
            c.ports is None,
    {
        JeanConfig { scripts: JeanScripts::default(), ports: None }
    }
}

/// The commands of a `run` entry, in order.
pub open spec fn run_commands(r: RunScript) -> Seq<Seq<char>> {
    match r {
        RunScript::Single(s) => seq![s@],
        RunScript::Multiple(v) => strs(v@),
    }
}

impl RunScript {
    /// The commands, a single one becoming a list of one.
    pub fn into_vec(self) -> (v: Vec<String>)
        ensures
            strs(v@) == run_commands(self),
    {
        match self {
            RunScript::Single(script) => {
                let v = vec![script];
                assert(strs(v@) =~= run_commands(RunScript::Single(v@[0])));
                v
            },
            RunScript::Multiple(scripts) => scripts,
        }
    }
}

/// The run commands of a configuration (none without configuration or `run` entry).
pub open spec fn configured_run_commands(config: Option<JeanConfig>) -> Seq<Seq<char>> {
    match config {
        Some(c) => match c.scripts.run {
            Some(r) => run_commands(r),
            None => seq![],
        },
        None => seq![],
    }
}

/// The run commands of a worktree's configuration; `config` is what the caller
/// read from the worktree's `jean.json` (none when missing or unreadable).
pub fn read_run_scripts(config: Option<JeanConfig>) -> (v: Vec<String>)
    ensures
        strs(v@) == configured_run_commands(config),
{
    match config {
        Some(c) => match c.scripts.run {
            Some(r) => r.into_vec(),
            None => {
                let v: Vec<String> = Vec::new();
                assert(strs(v@) =~= Seq::<Seq<char>>::empty());
                v
            },
        },
        None => {
            let v: Vec<String> = Vec::new();
            assert(strs(v@) =~= Seq::<Seq<char>>::empty());
            v
        },
    }
}

// ---------------------------------------------------------------------------
// Scripts
// ---------------------------------------------------------------------------

/// An `InvalidArgument` error with the given message.
pub fn invalid(message: String) -> (e: BackendError)
    ensures
        e.code == BackendErrorCode::InvalidArgument,
        e.message@ == message@,
{
    BackendError::with_message(BackendErrorCode::InvalidArgument, message)
}

/// An absolute path in the POSIX sense: it starts at the root `/`.
pub open spec fn is_absolute(path: Seq<char>) -> bool {
    path.len() > 0 && path[0] == '/'
}

/// The first problem with a script's environment, if any.
pub open spec fn script_env_problem(worktree: Seq<char>, root: Seq<char>, branch: Seq<char>) -> Option<
    Seq<char>,
> {
    if worktree.len() == 0 {
        Some("JEAN_WORKSPACE_PATH is empty \u{2014} refusing to run script"@)
    } else if root.len() == 0 {
        Some("JEAN_ROOT_PATH is empty \u{2014} refusing to run script"@)
    } else if branch.len() == 0 {
        Some("JEAN_BRANCH is empty \u{2014} refusing to run script"@)
    } else if !is_absolute(worktree) {
        Some("JEAN_WORKSPACE_PATH is not an absolute path: "@ + worktree)
    } else if !is_absolute(root) {
        Some("JEAN_ROOT_PATH is not an absolute path: "@ + root)
    } else {
        None
    }
}

fn path_is_absolute(path: &str) -> (r: bool)
    ensures
        r == is_absolute(path@),
{
    let c = chars_of(path);
    c.len() > 0 && c[0] == '/'
}

/// Refuses to run a script with an empty variable or a relative path.
pub fn validate_script_env(worktree_path: &str, root_path: &str, branch: &str) -> (r: Result<
    (),
    BackendError,
>)
    ensures
        match script_env_problem(worktree_path@, root_path@, branch@) {
            None => r is Ok,
            Some(m) => r matches Err(e) && e.code == BackendErrorCode::InvalidArgument
                && e.message@ == m,
        },
{
    if worktree_path.is_empty() {
        return Err(invalid(own("JEAN_WORKSPACE_PATH is empty \u{2014} refusing to run script")));
    }
    if root_path.is_empty() {
        return Err(invalid(own("JEAN_ROOT_PATH is empty \u{2014} refusing to run script")));
    }
    if branch.is_empty() {
        return Err(invalid(own("JEAN_BRANCH is empty \u{2014} refusing to run script")));
    }
    if !path_is_absolute(worktree_path) {
        return Err(invalid(cat("JEAN_WORKSPACE_PATH is not an absolute path: ", worktree_path)));
    }
    if !path_is_absolute(root_path) {
        return Err(invalid(cat("JEAN_ROOT_PATH is not an absolute path: ", root_path)));
    }
    Ok(())
}

/// Shells that accept `-l -i` (login, interactive).
pub open spec fn supports_login(shell: Seq<char>) -> bool {
    ends(shell, "bash"@) || ends(shell, "zsh"@) || ends(shell, "fish"@) || ends(shell, "ksh"@)
        || ends(shell, "tcsh"@)
}

/// Whether the shell at `shell` is started as a login shell.
pub fn shell_supports_login(shell: &str) -> (r: bool)
    ensures
        r == supports_login(shell@),
{
    let c = chars_of(shell);
    let s = c.as_slice();
    ends_with_str(s, "bash") || ends_with_str(s, "zsh") || ends_with_str(s, "fish")
        || ends_with_str(s, "ksh") || ends_with_str(s, "tcsh")
}

pub open spec fn shell_path(shell_env: Option<Seq<char>>) -> Seq<char> {
    match shell_env {
        Some(s) => s,
        None => "/bin/sh"@,
    }
}

/// The user's shell (`$SHELL`, passed in as `shell_env`, or `/bin/sh`) and
/// whether it runs as a login shell.
pub fn user_shell(shell_env: Option<&str>) -> (r: (String, bool))
    ensures
        r.0@ == shell_path(crate::git_ops::opt_text(shell_env)),
        r.1 == supports_login(r.0@),
{
    let shell = match shell_env {
        Some(s) => own(s),
        None => own("/bin/sh"),
    };
    let login = shell_supports_login(shell.as_str());
    (shell, login)
}

/// The command that runs `script` for a worktree: the shell with `-c` (and `-l -i`
/// for login shells), in the worktree, with the `JEAN_*` variables set.
pub open spec fn script_invocation(
    worktree: Seq<char>,
    root: Seq<char>,
    branch: Seq<char>,
    script: Seq<char>,
    shell: Seq<char>,
) -> InvocationView {
    InvocationView {
        program: ProgramView::Path(shell),
        dir: Some(worktree),
        args: if supports_login(shell) {
            seq!["-l"@, "-i"@, "-c"@, script]
        } else {
            seq!["-c"@, script]
        },
        env: seq![
            ("JEAN_WORKSPACE_PATH"@, worktree),
            ("JEAN_ROOT_PATH"@, root),
            ("JEAN_BRANCH"@, branch),
        ],
    }
}

/// The mathematical form of a script step.
pub open spec fn script_step(s: Step<Result<String, BackendError>>) -> Next<
    Result<Seq<char>, (BackendErrorCode, Seq<char>)>,
> {
    match s {
        Step::Run(i) => Next::Run(i@),
        Step::Done(Ok(v)) => Next::Done(Ok(v@)),
        Step::Done(Err(e)) => Next::Done(Err((e.code, e.message@))),
    }
}

/// The protocol of [`run_script`].
pub open spec fn run_script_next(
    kind: Seq<char>,
    worktree: Seq<char>,
    root: Seq<char>,
    branch: Seq<char>,
    script: Seq<char>,
    shell_env: Option<Seq<char>>,
    outs: Seq<Outcome>,
) -> Next<Result<Seq<char>, (BackendErrorCode, Seq<char>)>> {
    match script_env_problem(worktree, root, branch) {
        Some(m) => Next::Done(Err((BackendErrorCode::InvalidArgument, m))),
        None => if outs.len() == 0 {
            Next::Run(script_invocation(worktree, root, branch, script, shell_path(shell_env)))
        } else {
            match outs[0] {
                Err(e) => Next::Done(Err((BackendErrorCode::Io, e@))),
                Ok(o) => {
                    let combined = trim(o.stdout@ + o.stderr@);
                    if o.success {
                        Next::Done(Ok(combined))
                    } else {
                        Next::Done(
                            Err((BackendErrorCode::Io, kind + " script failed:\n"@ + combined)),
                        )
                    }
                },
            }
        },
    }
}

/// Runs a setup or teardown `script` (`kind` names which) in a worktree, after
/// checking its environment; succeeds with the combined, trimmed output.
pub fn run_script(
    kind: &str,
    worktree_path: &str,
    root_path: &str,
    branch: &str,
    script: &str,
    shell_env: Option<&str>,
    outcomes: &Vec<Outcome>,
) -> (r: Step<Result<String, BackendError>>)
    ensures
        script_step(r) == run_script_next(
            kind@,
            worktree_path@,
            root_path@,
            branch@,
            script@,
            crate::git_ops::opt_text(shell_env),
            outcomes@,
        ),
{
    if let Err(e) = validate_script_env(worktree_path, root_path, branch) {
        return Step::Done(Err(e));
    }
    if outcomes.len() == 0 {
        let (shell, login) = user_shell(shell_env);
        let args = if login {
            vec![own("-l"), own("-i"), own("-c"), own(script)]
        } else {
            vec![own("-c"), own(script)]
        };
        let env = vec![
            (own("JEAN_WORKSPACE_PATH"), own(worktree_path)),
            (own("JEAN_ROOT_PATH"), own(root_path)),
            (own("JEAN_BRANCH"), own(branch)),
        ];
        let inv = Invocation {
            program: Program::Path(shell),
            dir: Some(own(worktree_path)),
            args,
            env,
        };
        assert(inv@.args =~= script_invocation(
            worktree_path@,
            root_path@,
            branch@,
            script@,
            shell_path(crate::git_ops::opt_text(shell_env)),
        ).args);
        assert(inv@.env =~= script_invocation(
            worktree_path@,
            root_path@,
            branch@,
            script@,
            shell_path(crate::git_ops::opt_text(shell_env)),
        ).env);
        return Step::Run(inv);
    }
    match &outcomes[0] {
        Err(e) => Step::Done(Err(BackendError::with_message(BackendErrorCode::Io, e.clone()))),
        Ok(o) => {
            let mut all = chars_of(o.stdout.as_str());
            push_str(&mut all, o.stderr.as_str());
            let combined = string_of(trimmed(all.as_slice()).as_slice());
            if o.success {
                Step::Done(Ok(combined))
            } else {
                let m = cat3(kind, " script failed:\n", combined.as_str());
                Step::Done(Err(BackendError::with_message(BackendErrorCode::Io, m)))
            }
        },
    }
}

/// The textual form of a script result, errors reduced to their message.
pub open spec fn script_text_next(n: Next<Result<Seq<char>, (BackendErrorCode, Seq<char>)>>) -> Next<
    Result<Seq<char>, Seq<char>>,
> {
    match n {
        Next::Run(i) => Next::Run(i),
        Next::Done(Ok(v)) => Next::Done(Ok(v)),
        Next::Done(Err((_, m))) => Next::Done(Err(m)),
    }
}

fn message_only(s: Step<Result<String, BackendError>>) -> (r: Step<Result<String, String>>)
    ensures
        crate::process::text_step(r) == script_text_next(script_step(s)),
{
    match s {
        Step::Run(i) => Step::Run(i),
        Step::Done(Ok(v)) => Step::Done(Ok(v)),
        Step::Done(Err(e)) => Step::Done(Err(e.message)),
    }
}

/// Runs a worktree's setup script (see [`run_script`]).
pub fn run_setup_script(
    worktree_path: &str,
    root_path: &str,
    branch: &str,
    script: &str,
    shell_env: Option<&str>,
    outcomes: &Vec<Outcome>,
) -> (r: Step<Result<String, String>>)
    ensures
        crate::process::text_step(r) == script_text_next(
            run_script_next(
                "setup"@,
                worktree_path@,
                root_path@,
                branch@,
                script@,
                crate::git_ops::opt_text(shell_env),
                outcomes@,
            ),
        ),
{
    message_only(run_script("setup", worktree_path, root_path, branch, script, shell_env, outcomes))
}

/// Runs a worktree's teardown script, before the worktree is deleted (see [`run_script`]).
pub fn run_teardown_script(
    worktree_path: &str,
    root_path: &str,
    branch: &str,
    script: &str,
    shell_env: Option<&str>,
    outcomes: &Vec<Outcome>,
) -> (r: Step<Result<String, String>>)
    ensures
        crate::process::text_step(r) == script_text_next(
            run_script_next(
                "teardown"@,
                worktree_path@,
                root_path@,
                branch@,
                script@,
                crate::git_ops::opt_text(shell_env),
                outcomes@,
            ),
        ),
{
    message_only(
        run_script("teardown", worktree_path, root_path, branch, script, shell_env, outcomes),
    )
}

} // verus!
