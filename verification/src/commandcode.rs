//! Detecting the Command Code CLI: whether it is installed, which version it
//! reports, whether it is logged in, and where it sits on `PATH`.
use crate::process::{
    exe, exe_in, opt_str, own, step_view, strs, Next, Outcome, Output, Step,
};
use crate::text::{
    chars_of, contains, contains_seq, contains_str, lines, lowercase, split_lines, string_of,
    texts, to_lowercase, trim, trimmed,
};
use vstd::prelude::*;

verus! {

/// Seconds an auth check may run before it is abandoned.
pub const AUTH_CHECK_TIMEOUT_SECS: u64 = 5;

/// Whether the CLI is installed, and its version and path.
#[derive(Clone, Debug)]
pub struct CommandCodeCliStatus {
    pub installed: bool,
    pub version: Option<String>,
    pub path: Option<String>,
}

/// Whether the CLI is logged in.
#[derive(Clone, Debug)]
pub struct CommandCodeAuthStatus {
    pub authenticated: bool,
    pub error: Option<String>,
    pub timed_out: bool,
}

/// Where the CLI was found on `PATH`.
#[derive(Clone, Debug)]
pub struct CommandCodePathDetection {
    pub found: bool,
    pub path: Option<String>,
    pub version: Option<String>,
    pub package_manager: Option<String>,
}

/// The command that installs the CLI.
#[derive(Clone, Debug)]
pub struct CommandCodeInstallCommand {
    pub command: String,
    pub args: Vec<String>,
    pub description: String,
}

pub struct CliStatusView {
    pub installed: bool,
    pub version: Option<Seq<char>>,
    pub path: Option<Seq<char>>,
}

pub struct AuthStatusView {
    pub authenticated: bool,
    pub error: Option<Seq<char>>,
    pub timed_out: bool,
}

pub struct PathDetectionView {
    pub found: bool,
    pub path: Option<Seq<char>>,
    pub version: Option<Seq<char>>,
    pub package_manager: Option<Seq<char>>,
}

impl View for CommandCodeCliStatus {
    type V = CliStatusView;

    open spec fn view(&self) -> CliStatusView {
        CliStatusView {
            installed: self.installed,
            version: opt_str(self.version),
            path: opt_str(self.path),
        }
    }
}

impl View for CommandCodeAuthStatus {
    type V = AuthStatusView;

    open spec fn view(&self) -> AuthStatusView {
        AuthStatusView {
            authenticated: self.authenticated,
            error: opt_str(self.error),
            timed_out: self.timed_out,
        }
    }
}

impl View for CommandCodePathDetection {
    type V = PathDetectionView;

    open spec fn view(&self) -> PathDetectionView {
        PathDetectionView {
            found: self.found,
            path: opt_str(self.path),
            version: opt_str(self.version),
            package_manager: opt_str(self.package_manager),
        }
    }
}

// ---------------------------------------------------------------------------
// Reading the CLI's output
// ---------------------------------------------------------------------------

/// Whether `c` ends an ANSI control sequence (`@` through `~`).
pub open spec fn ends_csi(c: char) -> bool {
    '@' <= c && c <= '~'
}

/// The text with ANSI escapes removed: an `ESC [` control sequence up to and
/// including its final character, or a lone `ESC`.
pub open spec fn strip_ansi(s: Seq<char>) -> Seq<char>
    decreases s.len(), 1int,
{
    if s.len() == 0 {
        seq![]
    } else if s[0] == '\u{1b}' {
        if s.len() > 1 && s[1] == '[' {
            in_csi(s.skip(2))
        } else {
            strip_ansi(s.drop_first())
        }
    } else {
        seq![s[0]] + strip_ansi(s.drop_first())
    }
}

/// The rest of the text after the body of a control sequence was skipped.
pub open spec fn in_csi(t: Seq<char>) -> Seq<char>
    decreases t.len(), 0int,
{
    if t.len() == 0 {
        seq![]
    } else if ends_csi(t[0]) {
        strip_ansi(t.drop_first())
    } else {
        in_csi(t.drop_first())
    }
}

/// Removes ANSI escape sequences from `input`.
pub fn strip_ansi_chars(input: &[char]) -> (r: Vec<char>)
    ensures
        r@ == strip_ansi(input@),
{
    let n = input.len();
    let mut out: Vec<char> = Vec::new();
    let mut i: usize = 0;
    let mut skipping = false;
    assert(input@.skip(0) =~= input@);
    while i < n
        invariant
            n == input@.len(),
            i <= n,
            !skipping ==> strip_ansi(input@) == out@ + strip_ansi(input@.skip(i as int)),
            skipping ==> strip_ansi(input@) == out@ + in_csi(input@.skip(i as int)),
        decreases n - i,
    {
        let c = input[i];
        let ghost rest = input@.skip(i as int);
        assert(rest[0] == c);
        assert(rest.drop_first() =~= input@.skip(i + 1));
        if skipping {
            if '@' <= c && c <= '~' {
                skipping = false;
            }
            i = i + 1;
        } else if c == '\u{1b}' {
            if i + 1 < n && input[i + 1] == '[' {
                assert(rest[1] == input@[i + 1]);
                assert(rest.skip(2) =~= input@.skip(i + 2));
                skipping = true;
                i = i + 2;
            } else {
                i = i + 1;
            }
        } else {
            let ghost before = out@;
            out.push(c);
            assert(out@ + strip_ansi(input@.skip(i + 1)) =~= before + (seq![c] + strip_ansi(
                input@.skip(i + 1),
            )));
            i = i + 1;
        }
    }
    assert(input@.skip(n as int) =~= Seq::<char>::empty());
    assert(out@ + Seq::<char>::empty() =~= out@);
    out
}

/// `s` without its leading `c` characters.
pub open spec fn drop_leading(s: Seq<char>, c: char) -> Seq<char>
    decreases s.len(),
{
    if s.len() > 0 && s[0] == c {
        drop_leading(s.drop_first(), c)
    } else {
        s
    }
}

/// A version text: the output with escapes removed and trimmed, without
/// leading `v`s; `None` when nothing is left after trimming.
pub open spec fn version_of(stdout: Seq<char>) -> Option<Seq<char>> {
    let v = trim(strip_ansi(stdout));
    if v.len() == 0 {
        None
    } else {
        Some(drop_leading(v, 'v'))
    }
}

/// Reads a version from `--version` output.
pub fn parse_version(stdout: &str) -> (r: Option<String>)
    ensures
        opt_str(r) == version_of(stdout@),
{
    let stripped = strip_ansi_chars(chars_of(stdout).as_slice());
    let v = trimmed(stripped.as_slice());
    if v.len() == 0 {
        return None;
    }
    let mut i: usize = 0;
    assert(v@.skip(0) =~= v@);
    while i < v.len() && v[i] == 'v'
        invariant
            i <= v@.len(),
            drop_leading(v@, 'v') == drop_leading(v@.skip(i as int), 'v'),
        decreases v.len() - i,
    {
        assert(v@.skip(i as int).drop_first() =~= v@.skip(i + 1));
        i = i + 1;
    }
    assert(v@.subrange(i as int, v@.len() as int) =~= v@.skip(i as int));
    Some(string_of(crate::text::slice_chars(v.as_slice(), i, v.len()).as_slice()))
}

/// Whether CLI output reads as logged in: no denial ("not authenticated",
/// "not logged in", "login required"), and a confirmation ("authenticated",
/// "logged in", "signed in", or a user with an `@`), case-insensitively.
pub open spec fn reads_authenticated(output: Seq<char>) -> bool {
    let lower = lowercase(output);
    if contains_seq(lower, "not authenticated"@) || contains_seq(lower, "not logged in"@)
        || contains_seq(lower, "login required"@) {
        false
    } else {
        contains_seq(lower, "authenticated"@) || contains_seq(lower, "logged in"@) || contains_seq(
            lower,
            "signed in"@,
        ) || (contains_seq(lower, "user"@) && lower.contains('@'))
    }
}

/// Whether CLI output reads as logged in.
pub fn looks_authenticated(output: &str) -> (r: bool)
    ensures
        r == reads_authenticated(output@),
{
    let lower = to_lowercase(chars_of(output).as_slice());
    let l = lower.as_slice();
    if contains_str(l, "not authenticated") || contains_str(l, "not logged in") || contains_str(
        l,
        "login required",
    ) {
        return false;
    }
    let mut has_at = false;
    let mut i: usize = 0;
    while i < l.len()
        invariant
            i <= l@.len(),
            has_at == (exists|j: int| 0 <= j < i && l@[j] == '@'),
        decreases l.len() - i,
    {
        if l[i] == '@' {
            has_at = true;
        }
        i = i + 1;
    }
    proof {
        if has_at {
            let j = choose|j: int| 0 <= j < l@.len() && l@[j] == '@';
            assert(l@.contains('@'));
        }
    }
    contains_str(l, "authenticated") || contains_str(l, "logged in") || contains_str(
        l,
        "signed in",
    ) || (contains_str(l, "user") && has_at)
}

// ---------------------------------------------------------------------------
// Installed?
// ---------------------------------------------------------------------------

/// The protocol of [`check_commandcode_cli_installed`].
pub open spec fn cli_installed_next(binary: Seq<char>, exists: bool, outs: Seq<Outcome>) -> Next<
    CliStatusView,
> {
    if !exists {
        Next::Done(CliStatusView { installed: false, version: None, path: None })
    } else if outs.len() == 0 {
        Next::Run(exe(binary, seq!["--version"@]))
    } else {
        Next::Done(
            CliStatusView {
                installed: true,
                version: match outs[0] {
                    Ok(o) => if o.success {
                        version_of(o.stdout@)
                    } else {
                        None
                    },
                    Err(_) => None,
                },
                path: Some(binary),
            },
        )
    }
}

/// Whether the CLI at `binary` (which exists or not) is installed, and its
/// version from `binary --version`.
pub fn check_commandcode_cli_installed(binary: &str, exists: bool, outcomes: &Vec<Outcome>) -> (r:
    Step<CommandCodeCliStatus>)
    ensures
        step_view(r) == cli_installed_next(binary@, exists, outcomes@),
{
    if !exists {
        return Step::Done(CommandCodeCliStatus { installed: false, version: None, path: None });
    }
    if outcomes.len() == 0 {
        let args = vec![own("--version")];
        assert(strs(args@) =~= seq!["--version"@]);
        return Step::Run(exe_in(binary, args));
    }
    let version = match &outcomes[0] {
        Ok(o) => if o.success {
            parse_version(o.stdout.as_str())
        } else {
            None
        },
        Err(_) => None,
    };
    Step::Done(CommandCodeCliStatus { installed: true, version, path: Some(own(binary)) })
}

// ---------------------------------------------------------------------------
// Logged in?
// ---------------------------------------------------------------------------

/// The outcome of a command run with a time limit.
#[derive(Clone, Debug)]
pub enum TimedOutcome {
    /// It finished with this output.
    Finished(Output),
    /// It was killed at the time limit.
    TimedOut,
    /// It could not be started.
    Failed(String),
}

/// The message for a CLI that is not logged in and said nothing useful.
pub open spec fn not_logged_in_message() -> Seq<char> {
    "Not authenticated. Run `cmd login`."@
}

/// The arguments of the `i`-th auth check: `status`, then `whoami`.
pub open spec fn auth_args(i: int) -> Seq<Seq<char>> {
    if i == 0 {
        seq!["status"@]
    } else {
        seq!["whoami"@]
    }
}

/// The combined output of an auth check, escapes removed.
pub open spec fn combined_output(o: Output) -> Seq<char> {
    strip_ansi(o.stdout@ + "\n"@ + o.stderr@)
}

/// The auth checks from the `i`-th on.
pub open spec fn auth_from(binary: Seq<char>, outs: Seq<TimedOutcome>, i: int) -> Next<
    AuthStatusView,
>
    decreases 2 - i,
{
    if i >= 2 || i < 0 {
        Next::Done(
            AuthStatusView {
                authenticated: false,
                error: Some(not_logged_in_message()),
                timed_out: false,
            },
        )
    } else if outs.len() <= i {
        Next::Run(exe(binary, auth_args(i)))
    } else {
        match outs[i] {
            TimedOutcome::TimedOut => Next::Done(
                AuthStatusView {
                    authenticated: false,
                    error: Some(
                        "Command Code auth check timed out. Try again or run `cmd login`."@,
                    ),
                    timed_out: true,
                },
            ),
            TimedOutcome::Failed(_) => auth_from(binary, outs, i + 1),
            TimedOutcome::Finished(o) => if reads_authenticated(combined_output(o)) {
                Next::Done(AuthStatusView { authenticated: true, error: None, timed_out: false })
            } else if !o.success {
                Next::Done(
                    AuthStatusView {
                        authenticated: false,
                        error: Some(
                            if trim(combined_output(o)).len() == 0 {
                                not_logged_in_message()
                            } else {
                                trim(combined_output(o))
                            },
                        ),
                        timed_out: false,
                    },
                )
            } else {
                auth_from(binary, outs, i + 1)
            },
        }
    }
}

/// The protocol of [`check_commandcode_cli_auth`].
pub open spec fn cli_auth_next(binary: Seq<char>, exists: bool, outs: Seq<TimedOutcome>) -> Next<
    AuthStatusView,
> {
    if !exists {
        Next::Done(
            AuthStatusView {
                authenticated: false,
                error: Some("Command Code CLI not found in PATH"@),
                timed_out: false,
            },
        )
    } else {
        auth_from(binary, outs, 0)
    }
}

fn auth_check(binary: &str, outcomes: &Vec<TimedOutcome>, i: usize) -> (r: Step<
    CommandCodeAuthStatus,
>)
    requires
        i <= 2,
    ensures
        step_view(r) == auth_from(binary@, outcomes@, i as int),
    decreases 2 - i,
{
    if i == 2 {
        return Step::Done(
            CommandCodeAuthStatus {
                authenticated: false,
                error: Some(own("Not authenticated. Run `cmd login`.")),
                timed_out: false,
            },
        );
    }
    if outcomes.len() <= i {
        let args = if i == 0 {
            vec![own("status")]
        } else {
            vec![own("whoami")]
        };
        assert(strs(args@) =~= auth_args(i as int));
        return Step::Run(exe_in(binary, args));
    }
    match &outcomes[i] {
        TimedOutcome::TimedOut => Step::Done(
            CommandCodeAuthStatus {
                authenticated: false,
                error: Some(
                    own("Command Code auth check timed out. Try again or run `cmd login`."),
                ),
                timed_out: true,
            },
        ),
        TimedOutcome::Failed(_) => auth_check(binary, outcomes, i + 1),
        TimedOutcome::Finished(o) => {
            let mut text = chars_of(o.stdout.as_str());
            text.push('\n');
            let err = chars_of(o.stderr.as_str());
            crate::text::push_all(&mut text, err.as_slice());
            proof {
                reveal_strlit("\n");
            }
            assert(text@ =~= o.stdout@ + "\n"@ + o.stderr@);
            let combined = strip_ansi_chars(text.as_slice());
            if looks_authenticated(string_of(combined.as_slice()).as_str()) {
                return Step::Done(
                    CommandCodeAuthStatus { authenticated: true, error: None, timed_out: false },
                );
            }
            if !o.success {
                let msg = trimmed(combined.as_slice());
                let error = if msg.len() == 0 {
                    own("Not authenticated. Run `cmd login`.")
                } else {
                    string_of(msg.as_slice())
                };
                return Step::Done(
                    CommandCodeAuthStatus { authenticated: false, error: Some(error), timed_out: false },
                );
            }
            auth_check(binary, outcomes, i + 1)
        },
    }
}

/// Whether the CLI at `binary` is logged in: `binary status`, then
/// `binary whoami`, each with a time limit of [`AUTH_CHECK_TIMEOUT_SECS`].
/// A check that cannot start is skipped; one that times out ends the check.
pub fn check_commandcode_cli_auth(binary: &str, exists: bool, outcomes: &Vec<TimedOutcome>) -> (r:
    Step<CommandCodeAuthStatus>)
    ensures
        step_view(r) == cli_auth_next(binary@, exists, outcomes@),
{
    if !exists {
        return Step::Done(
            CommandCodeAuthStatus {
                authenticated: false,
                error: Some(own("Command Code CLI not found in PATH")),
                timed_out: false,
            },
        );
    }
    auth_check(binary, outcomes, 0)
}

// ---------------------------------------------------------------------------
// On PATH?
// ---------------------------------------------------------------------------

/// The path a successful lookup printed: its first line, trimmed.
pub open spec fn lookup_path(o: Outcome) -> Seq<char> {
    match o {
        Ok(out) => if out.success {
            if lines(out.stdout@).len() > 0 {
                trim(lines(out.stdout@)[0])
            } else {
                seq![]
            }
        } else {
            seq![]
        },
        Err(_) => seq![],
    }
}

/// The package manager that installed the CLI, judged by its path.
pub open spec fn package_manager_of(path: Seq<char>) -> Option<Seq<char>> {
    if contains_seq(path, "/npm/"@) || contains_seq(path, "node_modules"@) {
        Some("npm"@)
    } else {
        None
    }
}

/// Looking up the candidates from the `i`-th on, then asking the one found for
/// its version.
pub open spec fn detect_from(
    finder: Seq<char>,
    candidates: Seq<Seq<char>>,
    outs: Seq<Outcome>,
    i: int,
) -> Next<PathDetectionView>
    decreases candidates.len() - i,
{
    if i >= candidates.len() || i < 0 {
        Next::Done(PathDetectionView { found: false, path: None, version: None, package_manager: None })
    } else if outs.len() <= i {
        Next::Run(exe(finder, seq![candidates[i]]))
    } else if lookup_path(outs[i]).len() == 0 {
        detect_from(finder, candidates, outs, i + 1)
    } else {
        let path = lookup_path(outs[i]);
        if outs.len() <= i + 1 {
            Next::Run(exe(path, seq!["--version"@]))
        } else {
            Next::Done(
                PathDetectionView {
                    found: true,
                    path: Some(path),
                    version: match outs[i + 1] {
                        Ok(o) => if o.success {
                            version_of(o.stdout@)
                        } else {
                            None
                        },
                        Err(_) => None,
                    },
                    package_manager: package_manager_of(path),
                },
            )
        }
    }
}

fn lookup_path_of(o: &Outcome) -> (r: Vec<char>)
    ensures
        r@ == lookup_path(*o),
{
    match o {
        Ok(out) => {
            if !out.success {
                return Vec::new();
            }
            let ls = split_lines(chars_of(out.stdout.as_str()).as_slice());
            if ls.len() == 0 {
                return Vec::new();
            }
            assert(texts(ls@)[0] == ls@[0]@);
            trimmed(ls[0].as_slice())
        },
        Err(_) => Vec::new(),
    }
}

fn detect_step(finder: &str, candidates: &Vec<String>, outcomes: &Vec<Outcome>, i: usize) -> (r:
    Step<CommandCodePathDetection>)
    requires
        i <= candidates@.len(),
    ensures
        step_view(r) == detect_from(finder@, strs(candidates@), outcomes@, i as int),
    decreases candidates.len() - i,
{
    if i == candidates.len() {
        return Step::Done(
            CommandCodePathDetection { found: false, path: None, version: None, package_manager: None },
        );
    }
    if outcomes.len() <= i {
        let args = vec![candidates[i].clone()];
        assert(strs(args@) =~= seq![strs(candidates@)[i as int]]);
        return Step::Run(exe_in(finder, args));
    }
    let found = lookup_path_of(&outcomes[i]);
    if found.len() == 0 {
        return detect_step(finder, candidates, outcomes, i + 1);
    }
    let path = string_of(found.as_slice());
    if outcomes.len() <= i + 1 {
        let args = vec![own("--version")];
        assert(strs(args@) =~= seq!["--version"@]);
        return Step::Run(exe_in(path.as_str(), args));
    }
    let version = match &outcomes[i + 1] {
        Ok(o) => if o.success {
            parse_version(o.stdout.as_str())
        } else {
            None
        },
        Err(_) => None,
    };
    let package_manager = if contains_str(found.as_slice(), "/npm/") || contains_str(
        found.as_slice(),
        "node_modules",
    ) {
        Some(own("npm"))
    } else {
        None
    };
    Step::Done(
        CommandCodePathDetection { found: true, path: Some(path), version, package_manager },
    )
}

/// Finds the CLI on `PATH`: asks `finder` (`which`, or `where` on Windows) for
/// each candidate binary name in turn, then asks the first one found for its
/// version, and guesses its package manager from its path.
pub fn detect_commandcode_in_path(
    finder: &str,
    candidates: &Vec<String>,
    outcomes: &Vec<Outcome>,
) -> (r: Step<CommandCodePathDetection>)
    ensures
        step_view(r) == detect_from(finder@, strs(candidates@), outcomes@, 0),
{
    detect_step(finder, candidates, outcomes, 0)
}

/// The command that installs the CLI globally with npm.
pub fn get_commandcode_install_command() -> (r: CommandCodeInstallCommand)
    ensures
        r.command@ == "npm"@,
        strs(r.args@) == seq!["install"@, "-g"@, "command-code"@],
        r.description@ == "Install Command Code globally with npm"@,
{
    let args = vec![own("install"), own("-g"), own("command-code")];
    assert(strs(args@) =~= seq!["install"@, "-g"@, "command-code"@]);
    CommandCodeInstallCommand {
        command: own("npm"),
        args,
        description: own("Install Command Code globally with npm"),
    }
}

} // verus!
