//! Repository queries and updates through `git` and `gh`, as command protocols.
use crate::process::{
    cat, cat3, gh, gh_in, git, git_in, list_step, own, ok_and_success, stdout_of,
    strs, succeeded, text_step, unit_step, bool_step, Invocation, Next, Outcome, Step,
};
use crate::text::{
    chars_of, contains_str, decimal, decimal_string, contains_seq, lines, split_lines, starts,
    strip_prefix_str, string_of, texts, trim, trimmed, eq_str,
};
use rand::Rng;
use vstd::prelude::*;

verus! {

/// The characters of `s` with surrounding whitespace removed, as a string.
pub fn trim_string(s: &String) -> (r: String)
    ensures
        r@ == trim(s@),
{
    let c = chars_of(s.as_str());
    let t = trimmed(c.as_slice());
    string_of(t.as_slice())
}

// ---------------------------------------------------------------------------
// Current branch
// ---------------------------------------------------------------------------

pub open spec fn symbolic_head(repo: Seq<char>) -> crate::process::InvocationView {
    git(repo, seq!["symbolic-ref"@, "--short"@, "HEAD"@])
}

pub open spec fn abbrev_head(repo: Seq<char>) -> crate::process::InvocationView {
    git(repo, seq!["rev-parse"@, "--abbrev-ref"@, "HEAD"@])
}

/// `symbolic-ref` named a branch.
pub open spec fn names_branch(o: Outcome) -> bool {
    succeeded(o) && trim(stdout_of(o)).len() > 0
}

/// The protocol of [`get_current_branch`], started at outcome index `k`.
pub open spec fn current_branch_next(repo: Seq<char>, outs: Seq<Outcome>, k: int) -> Next<
    Result<Seq<char>, Seq<char>>,
> {
    if outs.len() <= k {
        Next::Run(symbolic_head(repo))
    } else if names_branch(outs[k]) {
        Next::Done(Ok(trim(stdout_of(outs[k]))))
    } else if outs.len() <= k + 1 {
        Next::Run(abbrev_head(repo))
    } else {
        match outs[k + 1] {
            Err(e) => Next::Done(Err("Failed to run git command: "@ + e@)),
            Ok(o) => if !o.success {
                Next::Done(Err("Failed to get current branch: "@ + o.stderr@))
            } else {
                Next::Done(Ok(trim(o.stdout@)))
            },
        }
    }
}

/// How many outcomes [`get_current_branch`] consumes from index `k`.
pub open spec fn current_branch_used(outs: Seq<Outcome>, k: int) -> int {
    if names_branch(outs[k]) {
        1
    } else {
        2
    }
}

pub fn current_branch_at(repo_path: &str, outcomes: &Vec<Outcome>, k: usize) -> (r: (
    Step<Result<String, String>>,
    usize,
))
    requires
        k <= outcomes@.len(),
    ensures
        text_step(r.0) == current_branch_next(repo_path@, outcomes@, k as int),
        r.0 is Done ==> r.1 == k + current_branch_used(outcomes@, k as int),
{
    if outcomes.len() == k {
        let args = vec![own("symbolic-ref"), own("--short"), own("HEAD")];
        assert(strs(args@) =~= seq!["symbolic-ref"@, "--short"@, "HEAD"@]);
        return (Step::Run(git_in(repo_path, args)), k);
    }
    let first = &outcomes[k];
    if ok_and_success(first) {
        let branch = trim_string(&crate::process::stdout_text(first));
        if !branch.as_str().is_empty() {
            return (Step::Done(Ok(branch)), k + 1);
        }
    }
    if outcomes.len() == k + 1 {
        let args = vec![own("rev-parse"), own("--abbrev-ref"), own("HEAD")];
        assert(strs(args@) =~= seq!["rev-parse"@, "--abbrev-ref"@, "HEAD"@]);
        return (Step::Run(git_in(repo_path, args)), k);
    }
    match &outcomes[k + 1] {
        Err(e) => (Step::Done(Err(cat("Failed to run git command: ", e.as_str()))), k + 2),
        Ok(o) => if !o.success {
            (Step::Done(Err(cat("Failed to get current branch: ", o.stderr.as_str()))), k + 2)
        } else {
            (Step::Done(Ok(trim_string(&o.stdout))), k + 2)
        },
    }
}

/// The current branch (HEAD) of a repository: `git symbolic-ref --short HEAD`,
/// which also works on repositories without commits; when that names no branch,
/// `git rev-parse --abbrev-ref HEAD` (which works with a detached HEAD).
pub fn get_current_branch(repo_path: &str, outcomes: &Vec<Outcome>) -> (r: Step<
    Result<String, String>,
>)
    ensures
        text_step(r) == current_branch_next(repo_path@, outcomes@, 0),
{
    current_branch_at(repo_path, outcomes, 0).0
}

// ---------------------------------------------------------------------------
// Remote branches and worktrees
// ---------------------------------------------------------------------------

/// Remote branch names from `git branch -r` lines: trimmed, empty lines and
/// `HEAD` references and the bare `origin` dropped, `origin/` removed.
pub open spec fn remote_branch_names(ls: Seq<Seq<char>>) -> Seq<Seq<char>>
    decreases ls.len(),
{
    if ls.len() == 0 {
        seq![]
    } else {
        let prev = remote_branch_names(ls.drop_last());
        let s = trim(ls.last());
        if s.len() == 0 || contains_seq(s, "HEAD"@) || s == "origin"@ {
            prev
        } else if starts(s, "origin/"@) {
            prev.push(s.skip("origin/"@.len() as int))
        } else {
            prev.push(s)
        }
    }
}

/// The protocol of [`get_remote_branches`].
pub open spec fn remote_branches_next(repo: Seq<char>, outs: Seq<Outcome>) -> Next<
    Result<Seq<Seq<char>>, Seq<char>>,
> {
    if outs.len() == 0 {
        Next::Run(git(repo, seq!["branch"@, "-r"@, "--format=%(refname:short)"@]))
    } else {
        match outs[0] {
            Err(e) => Next::Done(Err("Failed to run git command: "@ + e@)),
            Ok(o) => if !o.success {
                Next::Done(Err("Failed to list remote branches: "@ + o.stderr@))
            } else {
                Next::Done(Ok(remote_branch_names(lines(o.stdout@))))
            },
        }
    }
}

/// The names of the remote branches, with the `origin/` prefix removed.
pub fn get_remote_branches(repo_path: &str, outcomes: &Vec<Outcome>) -> (r: Step<
    Result<Vec<String>, String>,
>)
    ensures
        list_step(r) == remote_branches_next(repo_path@, outcomes@),
{
    if outcomes.len() == 0 {
        let args = vec![own("branch"), own("-r"), own("--format=%(refname:short)")];
        assert(strs(args@) =~= seq!["branch"@, "-r"@, "--format=%(refname:short)"@]);
        return Step::Run(git_in(repo_path, args));
    }
    match &outcomes[0] {
        Err(e) => Step::Done(Err(cat("Failed to run git command: ", e.as_str()))),
        Ok(o) => {
            if !o.success {
                return Step::Done(Err(cat("Failed to list remote branches: ", o.stderr.as_str())));
            }
            let out = chars_of(o.stdout.as_str());
            let ls = split_lines(out.as_slice());
            let mut names: Vec<String> = Vec::new();
            let mut i: usize = 0;
            proof {
                reveal_strlit("origin/");
                assert(texts(ls@).take(0) =~= Seq::<Seq<char>>::empty());
            }
            while i < ls.len()
                invariant
                    i <= ls@.len(),
                    strs(names@) == remote_branch_names(texts(ls@).take(i as int)),
                decreases ls.len() - i,
            {
                let s = trimmed(ls[i].as_slice());
                proof {
                    assert(s@ == trim(texts(ls@).take(i + 1).last()));
                    assert(texts(ls@).take(i + 1).drop_last() =~= texts(ls@).take(i as int));
                    assert(texts(ls@).take(i + 1).last() == ls@[i as int]@);
                }
                let ghost before = strs(names@);
                if s.len() == 0 || contains_str(s.as_slice(), "HEAD") || eq_str(s.as_slice(), "origin") {
                } else {
                    match strip_prefix_str(s.as_slice(), "origin/") {
                        Some(rest) => {
                            names.push(string_of(rest.as_slice()));
                        },
                        None => {
                            names.push(string_of(s.as_slice()));
                        },
                    }
                    assert(strs(names@) =~= before.push(names@.last()@));
                }
                assert(strs(names@) == remote_branch_names(texts(ls@).take(i + 1)));
                i = i + 1;
            }
            assert(texts(ls@).take(ls@.len() as int) =~= texts(ls@));
            Step::Done(Ok(names))
        },
    }
}

/// Worktree paths from `git worktree list --porcelain` lines.
pub open spec fn worktree_paths(ls: Seq<Seq<char>>) -> Seq<Seq<char>>
    decreases ls.len(),
{
    if ls.len() == 0 {
        seq![]
    } else {
        let prev = worktree_paths(ls.drop_last());
        if starts(ls.last(), "worktree "@) {
            prev.push(ls.last().skip("worktree "@.len() as int))
        } else {
            prev
        }
    }
}

/// The protocol of [`list_worktrees`].
pub open spec fn list_worktrees_next(repo: Seq<char>, outs: Seq<Outcome>) -> Next<
    Result<Seq<Seq<char>>, Seq<char>>,
> {
    if outs.len() == 0 {
        Next::Run(git(repo, seq!["worktree"@, "list"@, "--porcelain"@]))
    } else {
        match outs[0] {
            Err(e) => Next::Done(Err("Failed to run git worktree list: "@ + e@)),
            Ok(o) => if !o.success {
                Next::Done(Err("Failed to list worktrees: "@ + o.stderr@))
            } else {
                Next::Done(Ok(worktree_paths(lines(o.stdout@))))
            },
        }
    }
}

/// The paths of the repository's worktrees.
pub fn list_worktrees(repo_path: &str, outcomes: &Vec<Outcome>) -> (r: Step<
    Result<Vec<String>, String>,
>)
    ensures
        list_step(r) == list_worktrees_next(repo_path@, outcomes@),
{
    if outcomes.len() == 0 {
        let args = vec![own("worktree"), own("list"), own("--porcelain")];
        assert(strs(args@) =~= seq!["worktree"@, "list"@, "--porcelain"@]);
        return Step::Run(git_in(repo_path, args));
    }
    match &outcomes[0] {
        Err(e) => Step::Done(Err(cat("Failed to run git worktree list: ", e.as_str()))),
        Ok(o) => {
            if !o.success {
                return Step::Done(Err(cat("Failed to list worktrees: ", o.stderr.as_str())));
            }
            let out = chars_of(o.stdout.as_str());
            let ls = split_lines(out.as_slice());
            let mut paths: Vec<String> = Vec::new();
            let mut i: usize = 0;
            proof {
                reveal_strlit("worktree ");
                assert(texts(ls@).take(0) =~= Seq::<Seq<char>>::empty());
            }
            while i < ls.len()
                invariant
                    i <= ls@.len(),
                    strs(paths@) == worktree_paths(texts(ls@).take(i as int)),
                decreases ls.len() - i,
            {
                proof {
                    assert(texts(ls@).take(i + 1).drop_last() =~= texts(ls@).take(i as int));
                    assert(texts(ls@).take(i + 1).last() == ls@[i as int]@);
                }
                let ghost before = strs(paths@);
                match strip_prefix_str(ls[i].as_slice(), "worktree ") {
                    Some(rest) => {
                        paths.push(string_of(rest.as_slice()));
                        assert(strs(paths@) =~= before.push(rest@));
                    },
                    None => {},
                }
                assert(strs(paths@) == worktree_paths(texts(ls@).take(i + 1)));
                i = i + 1;
            }
            assert(texts(ls@).take(ls@.len() as int) =~= texts(ls@));
            Step::Done(Ok(paths))
        },
    }
}

// ---------------------------------------------------------------------------
// Working-tree state
// ---------------------------------------------------------------------------

/// The number of non-empty lines.
pub open spec fn nonempty_lines(ls: Seq<Seq<char>>) -> nat
    decreases ls.len(),
{
    if ls.len() == 0 {
        0
    } else {
        nonempty_lines(ls.drop_last()) + if ls.last().len() > 0 {
            1nat
        } else {
            0nat
        }
    }
}

pub open spec fn status_porcelain(repo: Seq<char>) -> crate::process::InvocationView {
    git(repo, seq!["status"@, "--porcelain"@])
}

/// The protocol of [`get_uncommitted_count`] (the count wraps at `u32::MAX + 1`,
/// as a truncating conversion to `u32` does).
pub open spec fn uncommitted_count_next(repo: Seq<char>, outs: Seq<Outcome>, k: int) -> Next<
    Result<u32, Seq<char>>,
> {
    if outs.len() <= k {
        Next::Run(status_porcelain(repo))
    } else {
        match outs[k] {
            Err(e) => Next::Done(Err("Failed to get git status: "@ + e@)),
            Ok(o) => Next::Done(Ok(nonempty_lines(lines(o.stdout@)) as u32)),
        }
    }
}

pub open spec fn count_step(s: Step<Result<u32, String>>) -> Next<Result<u32, Seq<char>>> {
    match s {
        Step::Run(i) => Next::Run(i@),
        Step::Done(Ok(n)) => Next::Done(Ok(n)),
        Step::Done(Err(e)) => Next::Done(Err(e@)),
    }
}

/// Counts the non-empty lines of `text`.
pub fn count_nonempty_lines(text: &String) -> (n: u64)
    ensures
        n == nonempty_lines(lines(text@)),
{
    let c = chars_of(text.as_str());
    let ls = split_lines(c.as_slice());
    let mut n: u64 = 0;
    let mut i: usize = 0;
    assert(texts(ls@).take(0) =~= Seq::<Seq<char>>::empty());
    while i < ls.len()
        invariant
            i <= ls@.len(),
            n == nonempty_lines(texts(ls@).take(i as int)),
            n <= i,
        decreases ls.len() - i,
    {
        assert(texts(ls@).take(i + 1).drop_last() =~= texts(ls@).take(i as int));
        if ls[i].len() > 0 {
            n = n + 1;
        }
        i = i + 1;
    }
    assert(texts(ls@).take(ls@.len() as int) =~= texts(ls@));
    n
}

pub fn uncommitted_count_at(repo_path: &str, outcomes: &Vec<Outcome>, k: usize) -> (r: Step<
    Result<u32, String>,
>)
    requires
        k <= outcomes@.len(),
    ensures
        count_step(r) == uncommitted_count_next(repo_path@, outcomes@, k as int),
{
    if outcomes.len() == k {
        let args = vec![own("status"), own("--porcelain")];
        assert(strs(args@) =~= seq!["status"@, "--porcelain"@]);
        return Step::Run(git_in(repo_path, args));
    }
    match &outcomes[k] {
        Err(e) => Step::Done(Err(cat("Failed to get git status: ", e.as_str()))),
        Ok(o) => {
            let n = count_nonempty_lines(&o.stdout);
            Step::Done(Ok(n as u32))
        },
    }
}

/// The number of changed paths in the working tree (lines of `git status --porcelain`).
pub fn get_uncommitted_count(repo_path: &str, outcomes: &Vec<Outcome>) -> (r: Step<
    Result<u32, String>,
>)
    ensures
        count_step(r) == uncommitted_count_next(repo_path@, outcomes@, 0),
{
    uncommitted_count_at(repo_path, outcomes, 0)
}

pub open spec fn upstream_query(repo: Seq<char>) -> crate::process::InvocationView {
    git(repo, seq!["rev-parse"@, "--abbrev-ref"@, "@{upstream}"@])
}

pub fn has_upstream_at(repo_path: &str, outcomes: &Vec<Outcome>, k: usize) -> (r: Step<bool>)
    requires
        k <= outcomes@.len(),
    ensures
        outcomes@.len() == k ==> bool_step(r) == Next::<bool>::Run(upstream_query(repo_path@)),
        outcomes@.len() > k ==> bool_step(r) == Next::Done(succeeded(outcomes@[k as int])),
{
    if outcomes.len() == k {
        let args = vec![own("rev-parse"), own("--abbrev-ref"), own("@{upstream}")];
        assert(strs(args@) =~= seq!["rev-parse"@, "--abbrev-ref"@, "@{upstream}"@]);
        return Step::Run(git_in(repo_path, args));
    }
    Step::Done(ok_and_success(&outcomes[k]))
}

/// Whether the current branch tracks an upstream branch.
pub fn has_upstream_branch(repo_path: &str, outcomes: &Vec<Outcome>) -> (r: Step<bool>)
    ensures
        outcomes@.len() == 0 ==> bool_step(r) == Next::<bool>::Run(upstream_query(repo_path@)),
        outcomes@.len() > 0 ==> bool_step(r) == Next::Done(succeeded(outcomes@[0])),
{
    has_upstream_at(repo_path, outcomes, 0)
}

// ---------------------------------------------------------------------------
// Fetch and upstream configuration
// ---------------------------------------------------------------------------

/// Fetches from `origin`, best effort: only a failure to start git is an error.
pub fn fetch_origin(repo_path: &str, outcomes: &Vec<Outcome>) -> (r: Step<Result<(), String>>)
    ensures
        outcomes@.len() == 0 ==> unit_step(r) == Next::<Result<(), Seq<char>>>::Run(
            git(repo_path@, seq!["fetch"@, "origin"@]),
        ),
        outcomes@.len() > 0 ==> unit_step(r) == Next::Done(
            match outcomes@[0] {
                Err(e) => Err("Failed to run git fetch: "@ + e@),
                Ok(_) => Ok(()),
            },
        ),
{
    if outcomes.len() == 0 {
        let args = vec![own("fetch"), own("origin")];
        assert(strs(args@) =~= seq!["fetch"@, "origin"@]);
        return Step::Run(git_in(repo_path, args));
    }
    match &outcomes[0] {
        Err(e) => Step::Done(Err(cat("Failed to run git fetch: ", e.as_str()))),
        Ok(_) => Step::Done(Ok(())),
    }
}

/// Records `origin/<remote_branch>` as the upstream of `local_branch` in the git
/// configuration (`branch.<local>.remote` and `branch.<local>.merge`).
pub fn set_upstream_tracking(
    repo_path: &str,
    local_branch: &str,
    remote_branch: &str,
    outcomes: &Vec<Outcome>,
) -> (r: Step<Result<(), String>>)
    ensures
        outcomes@.len() == 0 ==> unit_step(r) == Next::<Result<(), Seq<char>>>::Run(
            git(
                repo_path@,
                seq!["config"@, "branch."@ + local_branch@ + ".remote"@, "origin"@],
            ),
        ),
        outcomes@.len() == 1 ==> unit_step(r) == Next::<Result<(), Seq<char>>>::Run(
            git(
                repo_path@,
                seq![
                    "config"@,
                    "branch."@ + local_branch@ + ".merge"@,
                    "refs/heads/"@ + remote_branch@,
                ],
            ),
        ),
        outcomes@.len() > 1 ==> unit_step(r) == Next::Done(
            match outcomes@[1] {
                Err(e) => Err("Failed to set upstream config: "@ + e@),
                Ok(_) => Ok(()),
            },
        ),
{
    if outcomes.len() == 0 {
        let args = vec![own("config"), cat3("branch.", local_branch, ".remote"), own("origin")];
        assert(strs(args@) =~= seq!["config"@, "branch."@ + local_branch@ + ".remote"@, "origin"@]);
        return Step::Run(git_in(repo_path, args));
    }
    if outcomes.len() == 1 {
        let args = vec![
            own("config"),
            cat3("branch.", local_branch, ".merge"),
            cat("refs/heads/", remote_branch),
        ];
        assert(strs(args@) =~= seq![
            "config"@,
            "branch."@ + local_branch@ + ".merge"@,
            "refs/heads/"@ + remote_branch@,
        ]);
        return Step::Run(git_in(repo_path, args));
    }
    match &outcomes[1] {
        Err(e) => Step::Done(Err(cat("Failed to set upstream config: ", e.as_str()))),
        Ok(_) => Step::Done(Ok(())),
    }
}


// ---------------------------------------------------------------------------
// Pull requests
// ---------------------------------------------------------------------------

/// Checks out pull request `pr_number` with `gh pr checkout` (optionally into the
/// local branch `branch_name`), then reports the branch that is checked out.
pub fn gh_pr_checkout(
    worktree_path: &str,
    pr_number: u32,
    branch_name: Option<&str>,
    outcomes: &Vec<Outcome>,
) -> (r: Step<Result<String, String>>)
    ensures
        outcomes@.len() == 0 ==> text_step(r) == Next::<Result<Seq<char>, Seq<char>>>::Run(
            gh(
                worktree_path@,
                seq!["pr"@, "checkout"@, decimal(pr_number as nat)] + match branch_name {
                    Some(b) => seq!["-b"@, b@],
                    None => Seq::<Seq<char>>::empty(),
                },
            ),
        ),
        outcomes@.len() > 0 ==> text_step(r) == match outcomes@[0] {
            Err(e) => Next::Done(Err("Failed to run gh pr checkout: "@ + e@)),
            Ok(o) => if !o.success {
                Next::Done(
                    Err("Failed to checkout PR #"@ + decimal(pr_number as nat) + ": "@ + o.stderr@),
                )
            } else if outcomes@.len() == 1 {
                Next::Run(abbrev_head(worktree_path@))
            } else {
                match outcomes@[1] {
                    Err(e) => Next::Done(Err("Failed to get branch name: "@ + e@)),
                    Ok(b) => Next::Done(Ok(trim(b.stdout@))),
                }
            },
        },
{
    let number = decimal_string(pr_number as u64);
    if outcomes.len() == 0 {
        let mut args = vec![own("pr"), own("checkout"), number];
        let ghost base = strs(args@);
        assert(base =~= seq!["pr"@, "checkout"@, decimal(pr_number as nat)]);
        match branch_name {
            Some(b) => {
                args.push(own("-b"));
                args.push(own(b));
                assert(strs(args@) =~= base + seq!["-b"@, b@]);
            },
            None => {
                assert(strs(args@) =~= base + Seq::<Seq<char>>::empty());
            },
        }
        return Step::Run(gh_in(worktree_path, args));
    }
    match &outcomes[0] {
        Err(e) => Step::Done(Err(cat("Failed to run gh pr checkout: ", e.as_str()))),
        Ok(o) => {
            if !o.success {
                let mut m = cat3("Failed to checkout PR #", number.as_str(), ": ");
                m.append(o.stderr.as_str());
                return Step::Done(Err(m));
            }
            if outcomes.len() == 1 {
                let args = vec![own("rev-parse"), own("--abbrev-ref"), own("HEAD")];
                assert(strs(args@) =~= seq!["rev-parse"@, "--abbrev-ref"@, "HEAD"@]);
                return Step::Run(git_in(worktree_path, args));
            }
            match &outcomes[1] {
                Err(e) => Step::Done(Err(cat("Failed to get branch name: ", e.as_str()))),
                Ok(b) => Step::Done(Ok(trim_string(&b.stdout))),
            }
        },
    }
}

/// The arguments of `gh pr create`.
pub open spec fn pr_create_args(title: Option<Seq<char>>, body: Option<Seq<char>>, draft: bool) -> Seq<
    Seq<char>,
> {
    seq!["pr"@, "create"@, "--fill"@] + match title {
        Some(t) => seq!["--title"@, t],
        None => seq![],
    } + match body {
        Some(b) => seq!["--body"@, b],
        None => seq![],
    } + if draft {
        seq!["--draft"@]
    } else {
        seq![]
    } + seq!["--web"@]
}

/// The error reported for a failed `gh pr create`.
pub open spec fn pr_create_error(stderr: Seq<char>) -> Seq<char> {
    if contains_seq(stderr, "already exists"@) {
        "A pull request for this branch already exists"@
    } else if contains_seq(stderr, "no commits"@) || contains_seq(stderr, "nothing to compare"@) {
        "No commits to create a pull request. Make sure you have commits that differ from the base branch."@
    } else {
        "Failed to create pull request: "@ + stderr
    }
}

pub open spec fn opt_text(o: Option<&str>) -> Option<Seq<char>> {
    match o {
        Some(s) => Some(s@),
        None => None,
    }
}

/// The protocol of [`open_pull_request`].
pub open spec fn open_pull_request_next(
    repo: Seq<char>,
    title: Option<Seq<char>>,
    body: Option<Seq<char>>,
    draft: bool,
    outs: Seq<Outcome>,
) -> Next<Result<Seq<char>, Seq<char>>> {
    if outs.len() == 0 {
        Next::Run(git(repo, seq!["push"@, "-u"@, "origin"@, "HEAD"@]))
    } else if outs[0] is Err {
        Next::Done(Err("Failed to push to remote: "@ + outs[0]->Err_0@))
    } else if outs.len() == 1 {
        Next::Run(gh(repo, pr_create_args(title, body, draft)))
    } else {
        match outs[1] {
            Err(e) => Next::Done(Err("Failed to run gh pr create: "@ + e@)),
            Ok(o) => if !o.success {
                Next::Done(Err(pr_create_error(o.stderr@)))
            } else {
                Next::Done(Ok(trim(o.stdout@)))
            },
        }
    }
}

/// Pushes the current branch to `origin` (a failed push is tolerated), then opens
/// a pull request with `gh pr create --fill ... --web`; returns what gh prints.
pub fn open_pull_request(
    repo_path: &str,
    title: Option<&str>,
    body: Option<&str>,
    draft: bool,
    outcomes: &Vec<Outcome>,
) -> (r: Step<Result<String, String>>)
    ensures
        text_step(r) == open_pull_request_next(
            repo_path@,
            opt_text(title),
            opt_text(body),
            draft,
            outcomes@,
        ),
{
    if outcomes.len() == 0 {
        let args = vec![own("push"), own("-u"), own("origin"), own("HEAD")];
        assert(strs(args@) =~= seq!["push"@, "-u"@, "origin"@, "HEAD"@]);
        return Step::Run(git_in(repo_path, args));
    }
    if let Err(e) = &outcomes[0] {
        return Step::Done(Err(cat("Failed to push to remote: ", e.as_str())));
    }
    if outcomes.len() == 1 {
        let mut args = vec![own("pr"), own("create"), own("--fill")];
        let ghost a0 = strs(args@);
        match title {
            Some(t) => {
                args.push(own("--title"));
                args.push(own(t));
            },
            None => {},
        }
        let ghost a1 = strs(args@);
        assert(a1 =~= a0 + match opt_text(title) {
            Some(t) => seq!["--title"@, t],
            None => Seq::<Seq<char>>::empty(),
        });
        match body {
            Some(b) => {
                args.push(own("--body"));
                args.push(own(b));
            },
            None => {},
        }
        let ghost a2 = strs(args@);
        assert(a2 =~= a1 + match opt_text(body) {
            Some(b) => seq!["--body"@, b],
            None => Seq::<Seq<char>>::empty(),
        });
        if draft {
            args.push(own("--draft"));
        }
        let ghost a3 = strs(args@);
        assert(a3 =~= a2 + if draft {
            seq!["--draft"@]
        } else {
            Seq::<Seq<char>>::empty()
        });
        args.push(own("--web"));
        assert(strs(args@) =~= a3 + seq!["--web"@]);
        assert(strs(args@) =~= pr_create_args(opt_text(title), opt_text(body), draft));
        return Step::Run(gh_in(repo_path, args));
    }
    match &outcomes[1] {
        Err(e) => Step::Done(Err(cat("Failed to run gh pr create: ", e.as_str()))),
        Ok(o) => {
            if o.success {
                return Step::Done(Ok(trim_string(&o.stdout)));
            }
            let err = chars_of(o.stderr.as_str());
            if contains_str(err.as_slice(), "already exists") {
                Step::Done(Err(own("A pull request for this branch already exists")))
            } else if contains_str(err.as_slice(), "no commits") || contains_str(
                err.as_slice(),
                "nothing to compare",
            ) {
                Step::Done(
                    Err(
                        own(
                            "No commits to create a pull request. Make sure you have commits that differ from the base branch.",
                        ),
                    ),
                )
            } else {
                Step::Done(Err(cat("Failed to create pull request: ", o.stderr.as_str())))
            }
        },
    }
}


// ---------------------------------------------------------------------------
// GitHub remotes
// ---------------------------------------------------------------------------

/// A GitHub remote: its name and HTTPS URL.
#[derive(Clone, Debug)]
pub struct GitHubRemote {
    pub name: String,
    pub url: String,
}

/// The trimmed, non-empty lines.
pub open spec fn trimmed_nonempty(ls: Seq<Seq<char>>) -> Seq<Seq<char>>
    decreases ls.len(),
{
    if ls.len() == 0 {
        seq![]
    } else if trim(ls.last()).len() > 0 {
        trimmed_nonempty(ls.drop_last()).push(trim(ls.last()))
    } else {
        trimmed_nonempty(ls.drop_last())
    }
}

/// The GitHub remotes among `names`, `outs[i]` being the outcome of
/// `git remote get-url names[i]`.
pub open spec fn github_remote_entries(names: Seq<Seq<char>>, outs: Seq<Outcome>) -> Seq<
    (Seq<char>, Seq<char>),
>
    decreases names.len(),
{
    if names.len() == 0 || outs.len() == 0 {
        seq![]
    } else {
        let prev = github_remote_entries(names.drop_last(), outs.drop_last());
        let o = outs.last();
        if succeeded(o) && crate::git::github_url_of(trim(stdout_of(o))) is Some {
            prev.push((names.last(), crate::git::github_url_of(trim(stdout_of(o)))->Some_0))
        } else {
            prev
        }
    }
}

/// The entries named `origin`.
pub open spec fn named_origin(rs: Seq<(Seq<char>, Seq<char>)>) -> Seq<(Seq<char>, Seq<char>)>
    decreases rs.len(),
{
    if rs.len() == 0 {
        seq![]
    } else if rs.last().0 == "origin"@ {
        named_origin(rs.drop_last()).push(rs.last())
    } else {
        named_origin(rs.drop_last())
    }
}

/// The entries not named `origin`.
pub open spec fn not_origin(rs: Seq<(Seq<char>, Seq<char>)>) -> Seq<(Seq<char>, Seq<char>)>
    decreases rs.len(),
{
    if rs.len() == 0 {
        seq![]
    } else if rs.last().0 != "origin"@ {
        not_origin(rs.drop_last()).push(rs.last())
    } else {
        not_origin(rs.drop_last())
    }
}

/// The remotes with `origin` first, the others in their listed order (a stable sort).
pub open spec fn origin_first(rs: Seq<(Seq<char>, Seq<char>)>) -> Seq<(Seq<char>, Seq<char>)> {
    named_origin(rs) + not_origin(rs)
}

pub open spec fn remotes_view(v: Seq<GitHubRemote>) -> Seq<(Seq<char>, Seq<char>)> {
    v.map_values(|r: GitHubRemote| (r.name@, r.url@))
}

pub open spec fn remotes_step(s: Step<Result<Vec<GitHubRemote>, String>>) -> Next<
    Result<Seq<(Seq<char>, Seq<char>)>, Seq<char>>,
> {
    match s {
        Step::Run(i) => Next::Run(i@),
        Step::Done(Ok(v)) => Next::Done(Ok(remotes_view(v@))),
        Step::Done(Err(e)) => Next::Done(Err(e@)),
    }
}

/// The protocol of [`get_github_remotes`].
pub open spec fn github_remotes_next(repo: Seq<char>, outs: Seq<Outcome>) -> Next<
    Result<Seq<(Seq<char>, Seq<char>)>, Seq<char>>,
> {
    if outs.len() == 0 {
        Next::Run(git(repo, seq!["remote"@]))
    } else {
        match outs[0] {
            Err(e) => Next::Done(Err("Failed to list remotes: "@ + e@)),
            Ok(o) => if !o.success {
                Next::Done(Err("Failed to list remotes: "@ + o.stderr@))
            } else {
                let names = trimmed_nonempty(lines(o.stdout@));
                if outs.len() < names.len() + 1 {
                    Next::Run(git(repo, seq!["remote"@, "get-url"@, names[outs.len() - 1]]))
                } else {
                    Next::Done(
                        Ok(
                            origin_first(
                                github_remote_entries(names, outs.subrange(1, names.len() + 1int)),
                            ),
                        ),
                    )
                }
            },
        }
    }
}

/// The trimmed, non-empty lines of `text`.
pub fn trimmed_nonempty_lines(text: &String) -> (r: Vec<String>)
    ensures
        strs(r@) == trimmed_nonempty(lines(text@)),
{
    let c = chars_of(text.as_str());
    let ls = split_lines(c.as_slice());
    let mut r: Vec<String> = Vec::new();
    let mut i: usize = 0;
    assert(texts(ls@).take(0) =~= Seq::<Seq<char>>::empty());
    while i < ls.len()
        invariant
            i <= ls@.len(),
            strs(r@) == trimmed_nonempty(texts(ls@).take(i as int)),
        decreases ls.len() - i,
    {
        assert(texts(ls@).take(i + 1).drop_last() =~= texts(ls@).take(i as int));
        assert(texts(ls@).take(i + 1).last() == ls@[i as int]@);
        let t = trimmed(ls[i].as_slice());
        if t.len() > 0 {
            let ghost before = strs(r@);
            r.push(string_of(t.as_slice()));
            assert(strs(r@) =~= before.push(t@));
        }
        i = i + 1;
    }
    assert(texts(ls@).take(ls@.len() as int) =~= texts(ls@));
    r
}

/// The GitHub remotes of a repository (`git remote`, then `git remote get-url`
/// for each), `origin` first.
pub fn get_github_remotes(repo_path: &str, outcomes: &Vec<Outcome>) -> (r: Step<
    Result<Vec<GitHubRemote>, String>,
>)
    ensures
        remotes_step(r) == github_remotes_next(repo_path@, outcomes@),
{
    if outcomes.len() == 0 {
        let args = vec![own("remote")];
        assert(strs(args@) =~= seq!["remote"@]);
        return Step::Run(git_in(repo_path, args));
    }
    let o = match &outcomes[0] {
        Err(e) => {
            return Step::Done(Err(cat("Failed to list remotes: ", e.as_str())));
        },
        Ok(o) => o,
    };
    if !o.success {
        return Step::Done(Err(cat("Failed to list remotes: ", o.stderr.as_str())));
    }
    let names = trimmed_nonempty_lines(&o.stdout);
    let ghost ns = strs(names@);
    if outcomes.len() <= names.len() {
        let name = &names[outcomes.len() - 1];
        let args = vec![own("remote"), own("get-url"), name.clone()];
        assert(strs(args@) =~= seq!["remote"@, "get-url"@, ns[outcomes@.len() - 1]]);
        return Step::Run(git_in(repo_path, args));
    }
    let ghost urls = outcomes@.subrange(1, names@.len() + 1int);
    let mut found: Vec<GitHubRemote> = Vec::new();
    let mut i: usize = 0;
    while i < names.len()
        invariant
            i <= names@.len(),
            names@.len() + 1 <= outcomes@.len(),
            ns == strs(names@),
            urls == outcomes@.subrange(1, names@.len() + 1int),
            remotes_view(found@) == github_remote_entries(ns.take(i as int), urls.take(i as int)),
        decreases names.len() - i,
    {
        proof {
            assert(ns.take(i + 1).drop_last() =~= ns.take(i as int));
            assert(urls.take(i + 1).drop_last() =~= urls.take(i as int));
            assert(urls.take(i + 1).last() == outcomes@[i + 1]);
            assert(ns.take(i + 1).last() == names@[i as int]@);
        }
        let u = &outcomes[i + 1];
        if ok_and_success(u) {
            let text = chars_of(crate::process::stdout_text(u).as_str());
            let t = trimmed(text.as_slice());
            match crate::git::normalize_github_url(t.as_slice()) {
                Some(url) => {
                    let ghost before = remotes_view(found@);
                    let entry = GitHubRemote { name: names[i].clone(), url: string_of(url.as_slice()) };
                    found.push(entry);
                    assert(remotes_view(found@) =~= before.push((names@[i as int]@, url@)));
                },
                None => {},
            }
        }
        i = i + 1;
    }
    assert(ns.take(names@.len() as int) =~= ns);
    assert(urls.take(names@.len() as int) =~= urls);
    let ghost all = remotes_view(found@);
    let mut first: Vec<GitHubRemote> = Vec::new();
    let mut rest: Vec<GitHubRemote> = Vec::new();
    let mut j: usize = 0;
    while j < found.len()
        invariant
            j <= found@.len(),
            all == remotes_view(found@),
            remotes_view(first@) == named_origin(all.take(j as int)),
            remotes_view(rest@) == not_origin(all.take(j as int)),
        decreases found.len() - j,
    {
        assert(all.take(j + 1).drop_last() =~= all.take(j as int));
        assert(all.take(j + 1).last() == (found@[j as int].name@, found@[j as int].url@));
        let entry = GitHubRemote { name: found[j].name.clone(), url: found[j].url.clone() };
        let ghost bf = remotes_view(first@);
        let ghost br = remotes_view(rest@);
        if crate::text::str_eq(found[j].name.as_str(), "origin") {
            first.push(entry);
            assert(remotes_view(first@) =~= bf.push(all.take(j + 1).last()));
        } else {
            rest.push(entry);
            assert(remotes_view(rest@) =~= br.push(all.take(j + 1).last()));
        }
        j = j + 1;
    }
    assert(all.take(found@.len() as int) =~= all);
    let ghost f = remotes_view(first@);
    let ghost g = remotes_view(rest@);
    let mut k: usize = 0;
    while k < rest.len()
        invariant
            k <= rest@.len(),
            g == remotes_view(rest@),
            remotes_view(first@) == f + g.take(k as int),
        decreases rest.len() - k,
    {
        let ghost before = remotes_view(first@);
        first.push(GitHubRemote { name: rest[k].name.clone(), url: rest[k].url.clone() });
        assert(remotes_view(first@) =~= before.push(g[k as int]));
        assert(g.take(k + 1) =~= g.take(k as int).push(g[k as int]));
        k = k + 1;
    }
    assert(g.take(rest@.len() as int) =~= g);
    Step::Done(Ok(first))
}


// ---------------------------------------------------------------------------
// Renaming the current branch
// ---------------------------------------------------------------------------

/// A lowercase ASCII letter or digit.
pub open spec fn is_lower_alnum(c: char) -> bool {
    ('a' <= c && c <= 'z') || ('0' <= c && c <= '9')
}

/// One character drawn from `rand::distributions::Alphanumeric`
/// (`[A-Za-z0-9]`) with the thread-local generator. The value depends on
/// chance; only its alphabet is claimed.
#[verifier::external_body]
fn random_alphanumeric() -> (c: char)
    ensures
        ('a' <= c <= 'z') || ('A' <= c <= 'Z') || ('0' <= c <= '9'),
{
    char::from(rand::thread_rng().sample(rand::distributions::Alphanumeric))
}

/// `char::to_ascii_lowercase` for letters and digits.
fn ascii_lower(c: char) -> (r: char)
    requires
        ('a' <= c <= 'z') || ('A' <= c <= 'Z') || ('0' <= c <= '9'),
    ensures
        is_lower_alnum(r),
        ('A' <= c <= 'Z') ==> r as u32 == c as u32 + 32,
        !('A' <= c <= 'Z') ==> r == c,
{
    if 'A' <= c && c <= 'Z' {
        let code: u8 = (c as u32 + 32) as u8;
        let r = code as char;
        r
    } else {
        c
    }
}

/// A random suffix for a branch name: four lowercase letters or digits.
pub fn random_branch_suffix() -> (s: String)
    ensures
        s@.len() == 4,
        forall|i: int| 0 <= i < 4 ==> is_lower_alnum(#[trigger] s@[i]),
{
    let mut out: Vec<char> = Vec::new();
    let mut i: usize = 0;
    while i < 4
        invariant
            i <= 4,
            out@.len() == i,
            forall|k: int| 0 <= k < i ==> is_lower_alnum(#[trigger] out@[k]),
        decreases 4 - i,
    {
        out.push(ascii_lower(random_alphanumeric()));
        i = i + 1;
    }
    string_of(out.as_slice())
}

/// Ten random suffixes, the candidates tried when a branch name is taken.
pub fn branch_suffix_candidates() -> (v: Vec<String>)
    ensures
        v@.len() == 10,
        forall|i: int| 0 <= i < 10 ==> (#[trigger] v@[i])@.len() == 4,
{
    let mut v: Vec<String> = Vec::new();
    let mut i: usize = 0;
    while i < 10
        invariant
            i <= 10,
            v@.len() == i,
            forall|k: int| 0 <= k < i ==> (#[trigger] v@[k])@.len() == 4,
        decreases 10 - i,
    {
        v.push(random_branch_suffix());
        i = i + 1;
    }
    v
}

pub open spec fn verify_branch(repo: Seq<char>, name: Seq<char>) -> crate::process::InvocationView {
    git(repo, seq!["rev-parse"@, "--verify"@, "refs/heads/"@ + name])
}

/// `git branch -m <name>` and its result.
pub open spec fn branch_rename_phase(
    repo: Seq<char>,
    old: Seq<char>,
    name: Seq<char>,
    outs: Seq<Outcome>,
    k: int,
) -> Next<
    Result<Seq<char>, Seq<char>>,
> {
    if outs.len() <= k {
        Next::Run(git(repo, seq!["branch"@, "-m"@, name]))
    } else {
        match outs[k] {
            Err(e) => Next::Done(Err("Failed to rename branch: "@ + e@)),
            Ok(o) => if !o.success {
                Next::Done(Err("Git branch rename failed: "@ + o.stderr@))
            } else {
                Next::Done(Ok(old))
            },
        }
    }
}

/// Try `<new>-<suffix j>` for j = 0..9 until one is not an existing branch.
pub open spec fn unique_name_phase(
    repo: Seq<char>,
    old: Seq<char>,
    new_name: Seq<char>,
    suffixes: Seq<Seq<char>>,
    outs: Seq<Outcome>,
    k: int,
    j: int,
) -> Next<Result<Seq<char>, Seq<char>>>
    decreases 10 - j,
{
    if j >= 10 || j < 0 {
        Next::Done(Err("Could not find unique branch name after 10 attempts"@))
    } else if outs.len() <= k {
        Next::Run(verify_branch(repo, new_name + "-"@ + suffixes[j]))
    } else if !succeeded(outs[k]) {
        branch_rename_phase(repo, old, new_name + "-"@ + suffixes[j], outs, k + 1)
    } else {
        unique_name_phase(repo, old, new_name, suffixes, outs, k + 1, j + 1)
    }
}

/// The protocol of [`rename_branch`].
pub open spec fn rename_branch_next(
    repo: Seq<char>,
    new_name: Seq<char>,
    suffixes: Seq<Seq<char>>,
    outs: Seq<Outcome>,
) -> Next<Result<Seq<char>, Seq<char>>> {
    if outs.len() == 0 {
        Next::Run(symbolic_head(repo))
    } else {
        match outs[0] {
            Err(e) => Next::Done(Err("Failed to check HEAD state: "@ + e@)),
            Ok(h) => if !h.success {
                Next::Done(Err("Cannot rename branch: HEAD is detached"@))
            } else if trim(h.stdout@) == new_name {
                Next::Done(Ok(trim(h.stdout@)))
            } else if outs.len() == 1 {
                Next::Run(verify_branch(repo, new_name))
            } else if succeeded(outs[1]) {
                unique_name_phase(repo, trim(h.stdout@), new_name, suffixes, outs, 2, 0)
            } else {
                branch_rename_phase(repo, trim(h.stdout@), new_name, outs, 2)
            },
        }
    }
}

fn branch_rename_step(repo_path: &str, old: String, name: String, outcomes: &Vec<Outcome>, k: usize) -> (r: Step<
    Result<String, String>,
>)
    requires
        k <= outcomes@.len(),
    ensures
        text_step(r) == branch_rename_phase(repo_path@, old@, name@, outcomes@, k as int),
{
    if outcomes.len() == k {
        let args = vec![own("branch"), own("-m"), name];
        assert(strs(args@) =~= seq!["branch"@, "-m"@, name@]);
        return Step::Run(git_in(repo_path, args));
    }
    match &outcomes[k] {
        Err(e) => Step::Done(Err(cat("Failed to rename branch: ", e.as_str()))),
        Ok(o) => if !o.success {
            Step::Done(Err(cat("Git branch rename failed: ", o.stderr.as_str())))
        } else {
            Step::Done(Ok(old))
        },
    }
}

fn verify_branch_cmd(repo_path: &str, name: &str) -> (inv: Invocation)
    ensures
        inv@ == verify_branch(repo_path@, name@),
{
    let args = vec![own("rev-parse"), own("--verify"), cat("refs/heads/", name)];
    assert(strs(args@) =~= seq!["rev-parse"@, "--verify"@, "refs/heads/"@ + name@]);
    git_in(repo_path, args)
}

/// Renames the current branch to `new_name` and returns the old name. A
/// detached HEAD is refused; the same name is a no-op; when `new_name` is taken,
/// `new_name-<suffix>` is used with the first of `suffixes` (see
/// [`branch_suffix_candidates`]) that is free, trying at most ten.
pub fn rename_branch(
    repo_path: &str,
    new_name: &str,
    suffixes: &Vec<String>,
    outcomes: &Vec<Outcome>,
) -> (r: Step<Result<String, String>>)
    requires
        suffixes@.len() == 10,
    ensures
        text_step(r) == rename_branch_next(repo_path@, new_name@, strs(suffixes@), outcomes@),
{
    if outcomes.len() == 0 {
        let args = vec![own("symbolic-ref"), own("--short"), own("HEAD")];
        assert(strs(args@) =~= seq!["symbolic-ref"@, "--short"@, "HEAD"@]);
        return Step::Run(git_in(repo_path, args));
    }
    let h = match &outcomes[0] {
        Err(e) => {
            return Step::Done(Err(cat("Failed to check HEAD state: ", e.as_str())));
        },
        Ok(h) => h,
    };
    if !h.success {
        return Step::Done(Err(own("Cannot rename branch: HEAD is detached")));
    }
    let old_name = trim_string(&h.stdout);
    if crate::text::str_eq(old_name.as_str(), new_name) {
        return Step::Done(Ok(old_name));
    }
    if outcomes.len() == 1 {
        return Step::Run(verify_branch_cmd(repo_path, new_name));
    }
    if !ok_and_success(&outcomes[1]) {
        return branch_rename_step(repo_path, old_name, own(new_name), outcomes, 2);
    }
    let ghost sufs = strs(suffixes@);
    let mut j: usize = 0;
    while j < 10
        invariant
            j <= 10,
            2 + j <= outcomes@.len(),
            suffixes@.len() == 10,
            old_name@ == trim(h.stdout@),
            rename_branch_next(repo_path@, new_name@, sufs, outcomes@) == unique_name_phase(
                repo_path@,
                old_name@,
                new_name@,
                sufs,
                outcomes@,
                2,
                0,
            ),
            sufs == strs(suffixes@),
            unique_name_phase(repo_path@, old_name@, new_name@, sufs, outcomes@, 2 + j, j as int)
                == unique_name_phase(repo_path@, old_name@, new_name@, sufs, outcomes@, 2, 0),
        decreases 10 - j,
    {
        let candidate = cat3(new_name, "-", suffixes[j].as_str());
        assert(candidate@ == new_name@ + "-"@ + sufs[j as int]);
        if outcomes.len() == 2 + j {
            return Step::Run(verify_branch_cmd(repo_path, candidate.as_str()));
        }
        if !ok_and_success(&outcomes[2 + j]) {
            return branch_rename_step(repo_path, old_name.clone(), candidate, outcomes, 3 + j);
        }
        j = j + 1;
    }
    Step::Done(Err(own("Could not find unique branch name after 10 attempts")))
}

// ---------------------------------------------------------------------------
// Repository checks and PR context
// ---------------------------------------------------------------------------

/// Whether a path holds a git repository, from what the filesystem reports:
/// the path must exist and be a directory; the answer is whether it holds a
/// `.git` entry (a directory, or a file in a linked worktree).
pub fn validate_git_repo(path: &str, exists: bool, is_dir: bool, has_git_entry: bool) -> (r: Result<
    bool,
    String,
>)
    ensures
        !exists ==> (r matches Err(e) && e@ == "Path does not exist: "@ + path@),
        exists && !is_dir ==> (r matches Err(e) && e@ == "Path is not a directory: "@ + path@),
        exists && is_dir ==> r == Ok::<bool, String>(has_git_entry),
{
    if !exists {
        return Err(cat("Path does not exist: ", path));
    }
    if !is_dir {
        return Err(cat("Path is not a directory: ", path));
    }
    Ok(has_git_entry)
}

/// What a pull-request prompt needs to know about the branch.
#[derive(Clone, Debug)]
pub struct PrContext {
    pub uncommitted_count: u32,
    pub current_branch: String,
    pub target_branch: String,
    pub has_upstream: bool,
    pub pr_template: Option<String>,
}

/// Spec-level form of a [`PrContext`].
pub struct PrContextView {
    pub uncommitted_count: u32,
    pub current_branch: Seq<char>,
    pub target_branch: Seq<char>,
    pub has_upstream: bool,
    pub pr_template: Option<Seq<char>>,
}

pub open spec fn pr_context_step(s: Step<Result<PrContext, String>>) -> Next<
    Result<PrContextView, Seq<char>>,
> {
    match s {
        Step::Run(i) => Next::Run(i@),
        Step::Done(Ok(c)) => Next::Done(
            Ok(
                PrContextView {
                    uncommitted_count: c.uncommitted_count,
                    current_branch: c.current_branch@,
                    target_branch: c.target_branch@,
                    has_upstream: c.has_upstream,
                    pr_template: crate::process::opt_str(c.pr_template),
                },
            ),
        ),
        Step::Done(Err(e)) => Next::Done(Err(e@)),
    }
}

/// The protocol of [`generate_pr_context`]: the uncommitted count, then the
/// current branch, then whether it has an upstream.
pub open spec fn pr_context_next(
    repo: Seq<char>,
    target: Seq<char>,
    template: Option<Seq<char>>,
    outs: Seq<Outcome>,
) -> Next<Result<PrContextView, Seq<char>>> {
    match uncommitted_count_next(repo, outs, 0) {
        Next::Run(i) => Next::Run(i),
        Next::Done(Err(e)) => Next::Done(Err(e)),
        Next::Done(Ok(count)) => match current_branch_next(repo, outs, 1) {
            Next::Run(i) => Next::Run(i),
            Next::Done(Err(e)) => Next::Done(Err(e)),
            Next::Done(Ok(branch)) => {
                let k = 1 + current_branch_used(outs, 1);
                if outs.len() <= k {
                    Next::Run(upstream_query(repo))
                } else {
                    Next::Done(
                        Ok(
                            PrContextView {
                                uncommitted_count: count,
                                current_branch: branch,
                                target_branch: target,
                                has_upstream: succeeded(outs[k]),
                                pr_template: template,
                            },
                        ),
                    )
                }
            },
        },
    }
}

/// Everything a pull-request prompt needs: uncommitted change count, current
/// branch, target branch, whether there is an upstream, and the repository's PR
/// template (read by the caller from `.github/pull_request_template.md`).
pub fn generate_pr_context(
    repo_path: &str,
    target_branch: &str,
    pr_template: Option<String>,
    outcomes: &Vec<Outcome>,
) -> (r: Step<Result<PrContext, String>>)
    ensures
        pr_context_step(r) == pr_context_next(
            repo_path@,
            target_branch@,
            crate::process::opt_str(pr_template),
            outcomes@,
        ),
{
    let count = match uncommitted_count_at(repo_path, outcomes, 0) {
        Step::Run(i) => {
            return Step::Run(i);
        },
        Step::Done(Err(e)) => {
            return Step::Done(Err(e));
        },
        Step::Done(Ok(n)) => n,
    };
    let (branch_step, k) = current_branch_at(repo_path, outcomes, 1);
    let branch = match branch_step {
        Step::Run(i) => {
            return Step::Run(i);
        },
        Step::Done(Err(e)) => {
            return Step::Done(Err(e));
        },
        Step::Done(Ok(b)) => b,
    };
    match has_upstream_at(repo_path, outcomes, k) {
        Step::Run(i) => Step::Run(i),
        Step::Done(up) => Step::Done(
            Ok(
                PrContext {
                    uncommitted_count: count,
                    current_branch: branch,
                    target_branch: own(target_branch),
                    has_upstream: up,
                    pr_template,
                },
            ),
        ),
    }
}

} // verus!
