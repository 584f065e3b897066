//! Rebasing a worktree branch and merging it into its base branch, as command
//! protocols (see [`crate::process`]).
use crate::git_ops::{nonempty_lines, status_porcelain, trim_string};
use crate::process::{
    cat, cat3, git, git_in, own, stdout_of, strs, text_step, InvocationView, Next,
    Outcome, Step,
};
use crate::text::{
    chars_of, contains_str, contains_seq, lines, lowercase, split_lines, string_of, texts, to_lowercase,
    trim, trimmed,
};
use vstd::prelude::*;

verus! {

// ---------------------------------------------------------------------------
// Classifying git's error output
// ---------------------------------------------------------------------------

/// Whether a failed `git push` asks for an upstream to be set: the branch has no
/// upstream, or its upstream is named differently (`push.default=simple`).
pub open spec fn needs_upstream_retry(stderr: Seq<char>) -> bool {
    contains_seq(stderr, "has no upstream branch"@) || contains_seq(
        stderr,
        "upstream branch of your current branch does not match"@,
    )
}

/// Whether a failed `git push` should be retried as `git push -u origin HEAD`.
pub fn push_needs_upstream_retry(stderr: &str) -> (r: bool)
    ensures
        r == needs_upstream_retry(stderr@),
{
    let s = chars_of(stderr);
    contains_str(s.as_slice(), "has no upstream branch") || contains_str(
        s.as_slice(),
        "upstream branch of your current branch does not match",
    )
}

/// Whether a failed `git worktree add` was caused by contention on the
/// repository's configuration lock, so that retrying may succeed.
pub open spec fn worktree_error_is_retryable(stderr: Seq<char>) -> bool {
    contains_seq(stderr, "could not lock config file"@)
}

/// Whether a `git worktree add` failure is transient (a locked `.git/config`)
/// rather than a real conflict such as an existing branch or path.
pub fn is_retryable_worktree_create_error(error: &str) -> (r: bool)
    ensures
        r == worktree_error_is_retryable(error@),
{
    let s = chars_of(error);
    contains_str(s.as_slice(), "could not lock config file")
}

/// Whether a push error reads as a permission or authentication failure.
pub open spec fn permission_error(stderr: Seq<char>) -> bool {
    let lower = lowercase(stderr);
    contains_seq(lower, "permission"@) || contains_seq(lower, "denied"@) || contains_seq(lower, "403"@) || contains_seq(
        lower,
        "could not read username"@,
    ) || contains_seq(lower, "write access"@) || contains_seq(lower, "authentication failed"@) || contains_seq(
        lower,
        "not allowed"@,
    )
}

/// Whether `git push` failed for lack of permission (for example a fork without
/// write access), matched case-insensitively.
pub fn is_permission_error(stderr: &str) -> (r: bool)
    ensures
        r == permission_error(stderr@),
{
    let s = chars_of(stderr);
    let lower = to_lowercase(s.as_slice());
    let l = lower.as_slice();
    contains_str(l, "permission") || contains_str(l, "denied") || contains_str(l, "403")
        || contains_str(l, "could not read username") || contains_str(l, "write access")
        || contains_str(l, "authentication failed") || contains_str(l, "not allowed")
}

// ---------------------------------------------------------------------------
// Rebase onto the base branch
// ---------------------------------------------------------------------------

/// The working tree has changes: `git status --porcelain` printed a non-empty line.
pub open spec fn shows_changes(o: Output) -> bool {
    nonempty_lines(lines(o.stdout@)) > 0
}

pub type Output = crate::process::Output;

pub open spec fn wip_message(message: Option<Seq<char>>) -> Seq<char> {
    match message {
        Some(m) => m,
        None => "WIP: Committing changes before rebase"@,
    }
}

/// The protocol of [`rebase_onto_base`].
pub open spec fn rebase_onto_base_next(
    repo: Seq<char>,
    base: Seq<char>,
    message: Option<Seq<char>>,
    outs: Seq<Outcome>,
) -> Next<Result<Seq<char>, Seq<char>>> {
    if outs.len() == 0 {
        Next::Run(status_porcelain(repo))
    } else {
        match outs[0] {
            Err(e) => Next::Done(Err("Failed to get git status: "@ + e@)),
            Ok(o) => if shows_changes(o) {
                rebase_commit_phase(repo, base, wip_message(message), outs, 1)
            } else {
                rebase_fetch_phase(repo, base, outs, 1)
            },
        }
    }
}

/// Stage everything and commit it.
pub open spec fn rebase_commit_phase(
    repo: Seq<char>,
    base: Seq<char>,
    message: Seq<char>,
    outs: Seq<Outcome>,
    k: int,
) -> Next<Result<Seq<char>, Seq<char>>> {
    if outs.len() <= k {
        Next::Run(git(repo, seq!["add"@, "-A"@]))
    } else {
        match outs[k] {
            Err(e) => Next::Done(Err("Failed to stage changes: "@ + e@)),
            Ok(a) => if !a.success {
                Next::Done(Err("Failed to stage changes: "@ + a.stderr@))
            } else if outs.len() <= k + 1 {
                Next::Run(git(repo, seq!["commit"@, "-m"@, message]))
            } else {
                match outs[k + 1] {
                    Err(e) => Next::Done(Err("Failed to commit changes: "@ + e@)),
                    Ok(c) => if !c.success && !contains_seq(c.stderr@, "nothing to commit"@) {
                        Next::Done(Err("Failed to commit changes: "@ + c.stderr@))
                    } else {
                        rebase_fetch_phase(repo, base, outs, k + 2)
                    },
                }
            },
        }
    }
}

/// Fetch the base branch from `origin`.
pub open spec fn rebase_fetch_phase(repo: Seq<char>, base: Seq<char>, outs: Seq<Outcome>, k: int) -> Next<
    Result<Seq<char>, Seq<char>>,
> {
    if outs.len() <= k {
        Next::Run(git(repo, seq!["fetch"@, "origin"@, base]))
    } else {
        match outs[k] {
            Err(e) => Next::Done(Err("Failed to fetch from origin: "@ + e@)),
            Ok(f) => if !f.success {
                Next::Done(Err("Failed to fetch from origin: "@ + f.stderr@))
            } else {
                rebase_rebase_phase(repo, base, outs, k + 1)
            },
        }
    }
}

/// Rebase onto `origin/<base>`; on failure, abort the rebase.
pub open spec fn rebase_rebase_phase(repo: Seq<char>, base: Seq<char>, outs: Seq<Outcome>, k: int) -> Next<
    Result<Seq<char>, Seq<char>>,
> {
    if outs.len() <= k {
        Next::Run(git(repo, seq!["rebase"@, "origin/"@ + base]))
    } else {
        match outs[k] {
            Err(e) => Next::Done(Err("Failed to rebase: "@ + e@)),
            Ok(r) => if !r.success {
                if outs.len() <= k + 1 {
                    Next::Run(git(repo, seq!["rebase"@, "--abort"@]))
                } else {
                    Next::Done(
                        Err(
                            "Rebase failed (conflicts likely). Rebase has been aborted.\n"@
                                + r.stderr@,
                        ),
                    )
                }
            } else {
                rebase_push_phase(repo, outs, k + 1)
            },
        }
    }
}

/// Push with `--force-with-lease`, retrying with `-u origin HEAD` when git asks
/// for an upstream.
pub open spec fn rebase_push_phase(repo: Seq<char>, outs: Seq<Outcome>, k: int) -> Next<
    Result<Seq<char>, Seq<char>>,
> {
    if outs.len() <= k {
        Next::Run(git(repo, seq!["push"@, "--force-with-lease"@]))
    } else {
        match outs[k] {
            Err(e) => Next::Done(Err("Failed to push: "@ + e@)),
            Ok(p) => if p.success {
                Next::Done(Ok("Rebase completed successfully"@))
            } else if !needs_upstream_retry(p.stderr@) {
                Next::Done(Err("Failed to push: "@ + p.stderr@))
            } else if outs.len() <= k + 1 {
                Next::Run(git(repo, seq!["push"@, "-u"@, "origin"@, "HEAD"@]))
            } else {
                match outs[k + 1] {
                    Err(e) => Next::Done(Err("Failed to push: "@ + e@)),
                    Ok(u) => if !u.success {
                        Next::Done(Err("Failed to push: "@ + u.stderr@))
                    } else {
                        Next::Done(Ok("Rebase completed successfully"@))
                    },
                }
            },
        }
    }
}

fn push_phase(repo_path: &str, outcomes: &Vec<Outcome>, k: usize) -> (r: Step<Result<String, String>>)
    requires
        k <= outcomes@.len(),
    ensures
        text_step(r) == rebase_push_phase(repo_path@, outcomes@, k as int),
{
    if outcomes.len() == k {
        let args = vec![own("push"), own("--force-with-lease")];
        assert(strs(args@) =~= seq!["push"@, "--force-with-lease"@]);
        return Step::Run(git_in(repo_path, args));
    }
    match &outcomes[k] {
        Err(e) => Step::Done(Err(cat("Failed to push: ", e.as_str()))),
        Ok(p) => {
            if p.success {
                return Step::Done(Ok(own("Rebase completed successfully")));
            }
            if !push_needs_upstream_retry(p.stderr.as_str()) {
                return Step::Done(Err(cat("Failed to push: ", p.stderr.as_str())));
            }
            if outcomes.len() == k + 1 {
                let args = vec![own("push"), own("-u"), own("origin"), own("HEAD")];
                assert(strs(args@) =~= seq!["push"@, "-u"@, "origin"@, "HEAD"@]);
                return Step::Run(git_in(repo_path, args));
            }
            match &outcomes[k + 1] {
                Err(e) => Step::Done(Err(cat("Failed to push: ", e.as_str()))),
                Ok(u) => if !u.success {
                    Step::Done(Err(cat("Failed to push: ", u.stderr.as_str())))
                } else {
                    Step::Done(Ok(own("Rebase completed successfully")))
                },
            }
        },
    }
}

fn rebase_phase(repo_path: &str, base_branch: &str, outcomes: &Vec<Outcome>, k: usize) -> (r: Step<
    Result<String, String>,
>)
    requires
        k <= outcomes@.len(),
    ensures
        text_step(r) == rebase_rebase_phase(repo_path@, base_branch@, outcomes@, k as int),
{
    if outcomes.len() == k {
        let args = vec![own("rebase"), cat("origin/", base_branch)];
        assert(strs(args@) =~= seq!["rebase"@, "origin/"@ + base_branch@]);
        return Step::Run(git_in(repo_path, args));
    }
    match &outcomes[k] {
        Err(e) => Step::Done(Err(cat("Failed to rebase: ", e.as_str()))),
        Ok(r) => {
            if !r.success {
                if outcomes.len() == k + 1 {
                    let args = vec![own("rebase"), own("--abort")];
                    assert(strs(args@) =~= seq!["rebase"@, "--abort"@]);
                    return Step::Run(git_in(repo_path, args));
                }
                return Step::Done(
                    Err(
                        cat(
                            "Rebase failed (conflicts likely). Rebase has been aborted.\n",
                            r.stderr.as_str(),
                        ),
                    ),
                );
            }
            push_phase(repo_path, outcomes, k + 1)
        },
    }
}

fn fetch_phase(repo_path: &str, base_branch: &str, outcomes: &Vec<Outcome>, k: usize) -> (r: Step<
    Result<String, String>,
>)
    requires
        k <= outcomes@.len(),
    ensures
        text_step(r) == rebase_fetch_phase(repo_path@, base_branch@, outcomes@, k as int),
{
    if outcomes.len() == k {
        let args = vec![own("fetch"), own("origin"), own(base_branch)];
        assert(strs(args@) =~= seq!["fetch"@, "origin"@, base_branch@]);
        return Step::Run(git_in(repo_path, args));
    }
    match &outcomes[k] {
        Err(e) => Step::Done(Err(cat("Failed to fetch from origin: ", e.as_str()))),
        Ok(f) => if !f.success {
            Step::Done(Err(cat("Failed to fetch from origin: ", f.stderr.as_str())))
        } else {
            rebase_phase(repo_path, base_branch, outcomes, k + 1)
        },
    }
}

fn commit_phase(
    repo_path: &str,
    base_branch: &str,
    message: &str,
    outcomes: &Vec<Outcome>,
    k: usize,
) -> (r: Step<Result<String, String>>)
    requires
        k <= outcomes@.len(),
    ensures
        text_step(r) == rebase_commit_phase(
            repo_path@,
            base_branch@,
            message@,
            outcomes@,
            k as int,
        ),
{
    if outcomes.len() == k {
        let args = vec![own("add"), own("-A")];
        assert(strs(args@) =~= seq!["add"@, "-A"@]);
        return Step::Run(git_in(repo_path, args));
    }
    match &outcomes[k] {
        Err(e) => Step::Done(Err(cat("Failed to stage changes: ", e.as_str()))),
        Ok(a) => {
            if !a.success {
                return Step::Done(Err(cat("Failed to stage changes: ", a.stderr.as_str())));
            }
            if outcomes.len() == k + 1 {
                let args = vec![own("commit"), own("-m"), own(message)];
                assert(strs(args@) =~= seq!["commit"@, "-m"@, message@]);
                return Step::Run(git_in(repo_path, args));
            }
            match &outcomes[k + 1] {
                Err(e) => Step::Done(Err(cat("Failed to commit changes: ", e.as_str()))),
                Ok(c) => {
                    let err = chars_of(c.stderr.as_str());
                    if !c.success && !contains_str(err.as_slice(), "nothing to commit") {
                        Step::Done(Err(cat("Failed to commit changes: ", c.stderr.as_str())))
                    } else {
                        fetch_phase(repo_path, base_branch, outcomes, k + 2)
                    }
                },
            }
        },
    }
}

/// Whether `git status --porcelain` output shows changes.
pub fn porcelain_shows_changes(o: &Output) -> (r: bool)
    ensures
        r == shows_changes(*o),
{
    crate::git_ops::count_nonempty_lines(&o.stdout) > 0
}

/// Rebases the current branch onto `origin/<base_branch>`: commits pending
/// changes first (with `commit_message`, or a WIP message), fetches the base
/// branch, rebases (aborting on failure), then pushes with `--force-with-lease`.
pub fn rebase_onto_base(
    repo_path: &str,
    base_branch: &str,
    commit_message: Option<&str>,
    outcomes: &Vec<Outcome>,
) -> (r: Step<Result<String, String>>)
    ensures
        text_step(r) == rebase_onto_base_next(
            repo_path@,
            base_branch@,
            match commit_message {
                Some(m) => Some(m@),
                None => None,
            },
            outcomes@,
        ),
{
    if outcomes.len() == 0 {
        let args = vec![own("status"), own("--porcelain")];
        assert(strs(args@) =~= seq!["status"@, "--porcelain"@]);
        return Step::Run(git_in(repo_path, args));
    }
    match &outcomes[0] {
        Err(e) => Step::Done(Err(cat("Failed to get git status: ", e.as_str()))),
        Ok(o) => {
            if porcelain_shows_changes(o) {
                let message = match commit_message {
                    Some(m) => m,
                    None => "WIP: Committing changes before rebase",
                };
                commit_phase(repo_path, base_branch, message, outcomes, 1)
            } else {
                fetch_phase(repo_path, base_branch, outcomes, 1)
            }
        },
    }
}


// ---------------------------------------------------------------------------
// Local merge into the base branch
// ---------------------------------------------------------------------------

/// How a feature branch is brought into its base branch.
#[derive(Clone, Copy, Debug, PartialEq, Eq, Structural)]
pub enum MergeType {
    /// `git merge --no-ff`, with a merge commit.
    Merge,
    /// `git merge --squash`, then one commit.
    Squash,
    /// Rebase in the worktree, then fast-forward the base branch.
    Rebase,
}

/// The result of a local merge.
#[derive(Clone, Debug)]
pub enum MergeResult {
    /// The merge completed; the base branch now points at `commit_hash`.
    Success { commit_hash: String },
    /// The merge stopped on conflicts; it has been aborted.
    Conflict {
        conflicting_files: Vec<String>,
        /// The diff, with conflict markers, taken before the abort.
        conflict_diff: String,
    },
    /// The merge failed for another reason.
    Error { message: String },
}

/// The mathematical form of a [`MergeResult`].
pub enum MergeOutcome {
    Success(Seq<char>),
    Conflict(Seq<Seq<char>>, Seq<char>),
    Error(Seq<char>),
}

pub open spec fn merge_view(m: MergeResult) -> MergeOutcome {
    match m {
        MergeResult::Success { commit_hash } => MergeOutcome::Success(commit_hash@),
        MergeResult::Conflict { conflicting_files, conflict_diff } => MergeOutcome::Conflict(
            strs(conflicting_files@),
            conflict_diff@,
        ),
        MergeResult::Error { message } => MergeOutcome::Error(message@),
    }
}

pub open spec fn merge_step(s: Step<MergeResult>) -> Next<MergeOutcome> {
    match s {
        Step::Run(i) => Next::Run(i@),
        Step::Done(m) => Next::Done(merge_view(m)),
    }
}

/// The non-empty lines of a text.
pub open spec fn nonempty_only(ls: Seq<Seq<char>>) -> Seq<Seq<char>>
    decreases ls.len(),
{
    if ls.len() == 0 {
        seq![]
    } else if ls.last().len() > 0 {
        nonempty_only(ls.drop_last()).push(ls.last())
    } else {
        nonempty_only(ls.drop_last())
    }
}

/// Files listed by `git diff --name-only --diff-filter=U` (none when git did not start).
pub open spec fn listed_files(o: Outcome) -> Seq<Seq<char>> {
    match o {
        Ok(out) => nonempty_only(lines(out.stdout@)),
        Err(_) => seq![],
    }
}

/// The most informative message of a failed command: trimmed stderr, else
/// trimmed stdout, else `fallback`.
pub open spec fn failure_detail(stdout: Seq<char>, stderr: Seq<char>, fallback: Seq<char>) -> Seq<char> {
    if trim(stderr).len() > 0 {
        trim(stderr)
    } else if trim(stdout).len() > 0 {
        trim(stdout)
    } else {
        fallback
    }
}

/// Merge output that reports conflicts.
pub open spec fn merge_conflicted(stdout: Seq<char>, stderr: Seq<char>) -> bool {
    let combined = stdout + "\n"@ + stderr;
    contains_seq(combined, "CONFLICT"@) || contains_seq(combined, "Automatic merge failed"@) || contains_seq(
        combined,
        "fix conflicts"@,
    )
}

/// Rebase output that reports conflicts.
pub open spec fn rebase_conflicted(stdout: Seq<char>, stderr: Seq<char>) -> bool {
    let combined = stdout + "\n"@ + stderr;
    contains_seq(combined, "CONFLICT"@) || contains_seq(combined, "could not apply"@) || contains_seq(
        combined,
        "fix conflicts"@,
    )
}

pub open spec fn conflict_names(dir: Seq<char>) -> InvocationView {
    git(dir, seq!["diff"@, "--name-only"@, "--diff-filter=U"@])
}

pub open spec fn plain_diff(dir: Seq<char>) -> InvocationView {
    git(dir, seq!["diff"@])
}

/// Read the new HEAD commit (`unknown` when git cannot be started).
pub open spec fn head_hash_phase(repo: Seq<char>, outs: Seq<Outcome>, k: int) -> Next<MergeOutcome> {
    if outs.len() <= k {
        Next::Run(git(repo, seq!["rev-parse"@, "HEAD"@]))
    } else {
        match outs[k] {
            Ok(o) => Next::Done(MergeOutcome::Success(trim(o.stdout@))),
            Err(_) => Next::Done(MergeOutcome::Success("unknown"@)),
        }
    }
}

/// After a failed merge: collect conflicts and abort, or abort and report the failure.
pub open spec fn merge_failure_phase(
    repo: Seq<char>,
    stdout: Seq<char>,
    stderr: Seq<char>,
    outs: Seq<Outcome>,
    k: int,
) -> Next<MergeOutcome> {
    if merge_conflicted(stdout, stderr) {
        if outs.len() <= k {
            Next::Run(conflict_names(repo))
        } else if outs.len() <= k + 1 {
            Next::Run(plain_diff(repo))
        } else if outs.len() <= k + 2 {
            Next::Run(git(repo, seq!["merge"@, "--abort"@]))
        } else {
            Next::Done(MergeOutcome::Conflict(listed_files(outs[k]), stdout_of(outs[k + 1])))
        }
    } else if outs.len() <= k {
        Next::Run(git(repo, seq!["merge"@, "--abort"@]))
    } else {
        Next::Done(MergeOutcome::Error(failure_detail(stdout, stderr, "Unknown error"@)))
    }
}

pub open spec fn merge_message(feature: Seq<char>, squash: bool) -> Seq<char> {
    if squash {
        "Squashed commit from '"@ + feature + "'"@
    } else {
        "Merge branch '"@ + feature + "'"@
    }
}

/// A merge (`--no-ff`) or squash merge of `feature` into the checked-out branch.
pub open spec fn perform_merge_phase(
    repo: Seq<char>,
    feature: Seq<char>,
    squash: bool,
    outs: Seq<Outcome>,
    k: int,
) -> Next<MergeOutcome> {
    if outs.len() <= k {
        if squash {
            Next::Run(git(repo, seq!["merge"@, "--squash"@, feature]))
        } else {
            Next::Run(git(repo, seq!["merge"@, "--no-ff"@, feature, "-m"@, merge_message(feature, false)]))
        }
    } else {
        match outs[k] {
            Err(e) => Next::Done(MergeOutcome::Error("Failed to run git merge: "@ + e@)),
            Ok(m) => if !m.success {
                merge_failure_phase(repo, m.stdout@, m.stderr@, outs, k + 1)
            } else if !squash {
                head_hash_phase(repo, outs, k + 1)
            } else if outs.len() <= k + 1 {
                Next::Run(git(repo, seq!["commit"@, "-m"@, merge_message(feature, true)]))
            } else {
                match outs[k + 1] {
                    Err(e) => Next::Done(MergeOutcome::Error("Failed to run git commit: "@ + e@)),
                    Ok(c) => if c.success {
                        head_hash_phase(repo, outs, k + 2)
                    } else if contains_seq(c.stderr@, "nothing to commit"@) {
                        Next::Done(MergeOutcome::Error("No changes to merge"@))
                    } else {
                        Next::Done(
                            MergeOutcome::Error("Failed to commit squashed changes: "@ + c.stderr@),
                        )
                    },
                }
            },
        }
    }
}

/// Rebase `feature` onto `base` in the worktree, then fast-forward the base
/// branch in the main repository.
pub open spec fn rebase_and_merge_phase(
    repo: Seq<char>,
    worktree: Seq<char>,
    feature: Seq<char>,
    base: Seq<char>,
    outs: Seq<Outcome>,
    k: int,
) -> Next<MergeOutcome> {
    if outs.len() <= k {
        Next::Run(git(worktree, seq!["rebase"@, base]))
    } else {
        match outs[k] {
            Err(e) => Next::Done(MergeOutcome::Error("Failed to run git rebase: "@ + e@)),
            Ok(r) => if !r.success {
                if rebase_conflicted(r.stdout@, r.stderr@) {
                    if outs.len() <= k + 1 {
                        Next::Run(conflict_names(worktree))
                    } else if outs.len() <= k + 2 {
                        Next::Run(plain_diff(worktree))
                    } else if outs.len() <= k + 3 {
                        Next::Run(git(worktree, seq!["rebase"@, "--abort"@]))
                    } else {
                        Next::Done(
                            MergeOutcome::Conflict(
                                listed_files(outs[k + 1]),
                                stdout_of(outs[k + 2]),
                            ),
                        )
                    }
                } else if outs.len() <= k + 1 {
                    Next::Run(git(worktree, seq!["rebase"@, "--abort"@]))
                } else {
                    Next::Done(
                        MergeOutcome::Error(
                            failure_detail(r.stdout@, r.stderr@, "Unknown rebase error"@),
                        ),
                    )
                }
            } else if outs.len() <= k + 1 {
                Next::Run(git(repo, seq!["merge"@, "--ff-only"@, feature]))
            } else {
                match outs[k + 1] {
                    Err(e) => Next::Done(
                        MergeOutcome::Error("Failed to run git merge --ff-only: "@ + e@),
                    ),
                    Ok(f) => if f.success {
                        head_hash_phase(repo, outs, k + 2)
                    } else {
                        Next::Done(MergeOutcome::Error("Fast-forward merge failed: "@ + f.stderr@))
                    },
                }
            },
        }
    }
}

/// The protocol of [`merge_branch_to_base`].
pub open spec fn merge_branch_to_base_next(
    repo: Seq<char>,
    worktree: Seq<char>,
    feature: Seq<char>,
    base: Seq<char>,
    merge_type: MergeType,
    outs: Seq<Outcome>,
) -> Next<MergeOutcome> {
    if outs.len() == 0 {
        Next::Run(status_porcelain(repo))
    } else if outs[0] matches Ok(o) && shows_changes(o) {
        Next::Done(
            MergeOutcome::Error(
                "Cannot merge: there are uncommitted changes in the base branch. Please commit or stash them first."@,
            ),
        )
    } else if outs.len() == 1 {
        Next::Run(git(repo, seq!["checkout"@, base]))
    } else {
        match outs[1] {
            Err(e) => Next::Done(MergeOutcome::Error("Failed to run git checkout: "@ + e@)),
            Ok(c) => if !c.success {
                Next::Done(MergeOutcome::Error("Failed to checkout "@ + base + ": "@ + c.stderr@))
            } else if outs.len() == 2 {
                Next::Run(git(repo, seq!["pull"@, "origin"@, base]))
            } else if merge_type == MergeType::Rebase {
                rebase_and_merge_phase(repo, worktree, feature, base, outs, 3)
            } else {
                perform_merge_phase(repo, feature, merge_type == MergeType::Squash, outs, 3)
            },
        }
    }
}

/// The non-empty lines of a command's output (none when it did not start).
pub fn listed_files_of(o: &Outcome) -> (r: Vec<String>)
    ensures
        strs(r@) == listed_files(*o),
{
    match o {
        Err(_) => {
            let r: Vec<String> = Vec::new();
            assert(strs(r@) =~= Seq::<Seq<char>>::empty());
            r
        },
        Ok(out) => {
            let c = chars_of(out.stdout.as_str());
            let ls = split_lines(c.as_slice());
            let mut r: Vec<String> = Vec::new();
            let mut i: usize = 0;
            assert(texts(ls@).take(0) =~= Seq::<Seq<char>>::empty());
            while i < ls.len()
                invariant
                    i <= ls@.len(),
                    strs(r@) == nonempty_only(texts(ls@).take(i as int)),
                decreases ls.len() - i,
            {
                assert(texts(ls@).take(i + 1).drop_last() =~= texts(ls@).take(i as int));
                assert(texts(ls@).take(i + 1).last() == ls@[i as int]@);
                if ls[i].len() > 0 {
                    let ghost before = strs(r@);
                    r.push(string_of(ls[i].as_slice()));
                    assert(strs(r@) =~= before.push(ls@[i as int]@));
                }
                i = i + 1;
            }
            assert(texts(ls@).take(ls@.len() as int) =~= texts(ls@));
            r
        },
    }
}

/// The most informative message of a failed command.
pub fn failure_detail_of(stdout: &String, stderr: &String, fallback: &str) -> (r: String)
    ensures
        r@ == failure_detail(stdout@, stderr@, fallback@),
{
    let e = trim_string(stderr);
    if !e.as_str().is_empty() {
        return e;
    }
    let o = trim_string(stdout);
    if !o.as_str().is_empty() {
        return o;
    }
    own(fallback)
}

/// Reads the HEAD commit after a successful merge.
pub fn get_head_commit_hash(repo_path: &str, outcomes: &Vec<Outcome>, k: usize) -> (r: Step<
    MergeResult,
>)
    requires
        k <= outcomes@.len(),
    ensures
        merge_step(r) == head_hash_phase(repo_path@, outcomes@, k as int),
{
    if outcomes.len() == k {
        let args = vec![own("rev-parse"), own("HEAD")];
        assert(strs(args@) =~= seq!["rev-parse"@, "HEAD"@]);
        return Step::Run(git_in(repo_path, args));
    }
    match &outcomes[k] {
        Ok(o) => Step::Done(MergeResult::Success { commit_hash: trim_string(&o.stdout) }),
        Err(_) => Step::Done(MergeResult::Success { commit_hash: own("unknown") }),
    }
}

fn merge_output_conflicted(stdout: &String, stderr: &String) -> (r: bool)
    ensures
        r == merge_conflicted(stdout@, stderr@),
{
    let mut c = chars_of(stdout.as_str());
    crate::text::push_str(&mut c, "\n");
    crate::text::push_str(&mut c, stderr.as_str());
    contains_str(c.as_slice(), "CONFLICT") || contains_str(c.as_slice(), "Automatic merge failed")
        || contains_str(c.as_slice(), "fix conflicts")
}

fn rebase_output_conflicted(stdout: &String, stderr: &String) -> (r: bool)
    ensures
        r == rebase_conflicted(stdout@, stderr@),
{
    let mut c = chars_of(stdout.as_str());
    crate::text::push_str(&mut c, "\n");
    crate::text::push_str(&mut c, stderr.as_str());
    contains_str(c.as_slice(), "CONFLICT") || contains_str(c.as_slice(), "could not apply")
        || contains_str(c.as_slice(), "fix conflicts")
}

fn git_cmd2(dir: &str, a: &str, b: &str) -> (inv: crate::process::Invocation)
    ensures
        inv@ == git(dir@, seq![a@, b@]),
{
    let args = vec![own(a), own(b)];
    assert(strs(args@) =~= seq![a@, b@]);
    git_in(dir, args)
}

fn git_cmd3(dir: &str, a: &str, b: &str, c: &str) -> (inv: crate::process::Invocation)
    ensures
        inv@ == git(dir@, seq![a@, b@, c@]),
{
    let args = vec![own(a), own(b), own(c)];
    assert(strs(args@) =~= seq![a@, b@, c@]);
    git_in(dir, args)
}

/// After a failed merge: records the conflicting files and the conflict diff,
/// then aborts the merge; or, without conflicts, aborts and reports the failure.
pub fn handle_merge_failure(
    repo_path: &str,
    stdout: &String,
    stderr: &String,
    outcomes: &Vec<Outcome>,
    k: usize,
) -> (r: Step<MergeResult>)
    requires
        k <= outcomes@.len(),
    ensures
        merge_step(r) == merge_failure_phase(repo_path@, stdout@, stderr@, outcomes@, k as int),
{
    if merge_output_conflicted(stdout, stderr) {
        if outcomes.len() == k {
            return Step::Run(git_cmd3(repo_path, "diff", "--name-only", "--diff-filter=U"));
        }
        if outcomes.len() == k + 1 {
            let args = vec![own("diff")];
            assert(strs(args@) =~= seq!["diff"@]);
            return Step::Run(git_in(repo_path, args));
        }
        if outcomes.len() == k + 2 {
            return Step::Run(git_cmd2(repo_path, "merge", "--abort"));
        }
        let files = listed_files_of(&outcomes[k]);
        let diff = crate::process::stdout_text(&outcomes[k + 1]);
        return Step::Done(MergeResult::Conflict { conflicting_files: files, conflict_diff: diff });
    }
    if outcomes.len() == k {
        return Step::Run(git_cmd2(repo_path, "merge", "--abort"));
    }
    Step::Done(MergeResult::Error { message: failure_detail_of(stdout, stderr, "Unknown error") })
}

/// Merges `feature_branch` into the checked-out branch, with a merge commit or squashed.
pub fn perform_merge(
    repo_path: &str,
    feature_branch: &str,
    squash: bool,
    outcomes: &Vec<Outcome>,
    k: usize,
) -> (r: Step<MergeResult>)
    requires
        k <= outcomes@.len(),
    ensures
        merge_step(r) == perform_merge_phase(
            repo_path@,
            feature_branch@,
            squash,
            outcomes@,
            k as int,
        ),
{
    if outcomes.len() == k {
        if squash {
            return Step::Run(git_cmd3(repo_path, "merge", "--squash", feature_branch));
        } else {
            let message = cat3("Merge branch '", feature_branch, "'");
            let args = vec![own("merge"), own("--no-ff"), own(feature_branch), own("-m"), message];
            assert(strs(args@) =~= seq![
                "merge"@,
                "--no-ff"@,
                feature_branch@,
                "-m"@,
                merge_message(feature_branch@, false),
            ]);
            return Step::Run(git_in(repo_path, args));
        }
    }
    match &outcomes[k] {
        Err(e) => Step::Done(MergeResult::Error { message: cat("Failed to run git merge: ", e.as_str()) }),
        Ok(m) => {
            if !m.success {
                return handle_merge_failure(repo_path, &m.stdout, &m.stderr, outcomes, k + 1);
            }
            if !squash {
                return get_head_commit_hash(repo_path, outcomes, k + 1);
            }
            if outcomes.len() == k + 1 {
                let message = cat3("Squashed commit from '", feature_branch, "'");
                let args = vec![own("commit"), own("-m"), message];
                assert(strs(args@) =~= seq!["commit"@, "-m"@, merge_message(feature_branch@, true)]);
                return Step::Run(git_in(repo_path, args));
            }
            match &outcomes[k + 1] {
                Err(e) => Step::Done(
                    MergeResult::Error { message: cat("Failed to run git commit: ", e.as_str()) },
                ),
                Ok(c) => {
                    if c.success {
                        return get_head_commit_hash(repo_path, outcomes, k + 2);
                    }
                    let err = chars_of(c.stderr.as_str());
                    if contains_str(err.as_slice(), "nothing to commit") {
                        Step::Done(MergeResult::Error { message: own("No changes to merge") })
                    } else {
                        Step::Done(
                            MergeResult::Error {
                                message: cat(
                                    "Failed to commit squashed changes: ",
                                    c.stderr.as_str(),
                                ),
                            },
                        )
                    }
                },
            }
        },
    }
}

/// Rebases `feature_branch` onto `base_branch` in the worktree (where the feature
/// branch is checked out), then fast-forwards the base branch in the main repository.
pub fn rebase_and_merge(
    repo_path: &str,
    worktree_path: &str,
    feature_branch: &str,
    base_branch: &str,
    outcomes: &Vec<Outcome>,
    k: usize,
) -> (r: Step<MergeResult>)
    requires
        k <= outcomes@.len(),
    ensures
        merge_step(r) == rebase_and_merge_phase(
            repo_path@,
            worktree_path@,
            feature_branch@,
            base_branch@,
            outcomes@,
            k as int,
        ),
{
    if outcomes.len() == k {
        return Step::Run(git_cmd2(worktree_path, "rebase", base_branch));
    }
    match &outcomes[k] {
        Err(e) => Step::Done(MergeResult::Error { message: cat("Failed to run git rebase: ", e.as_str()) }),
        Ok(r) => {
            if !r.success {
                if rebase_output_conflicted(&r.stdout, &r.stderr) {
                    if outcomes.len() == k + 1 {
                        return Step::Run(
                            git_cmd3(worktree_path, "diff", "--name-only", "--diff-filter=U"),
                        );
                    }
                    if outcomes.len() == k + 2 {
                        let args = vec![own("diff")];
                        assert(strs(args@) =~= seq!["diff"@]);
                        return Step::Run(git_in(worktree_path, args));
                    }
                    if outcomes.len() == k + 3 {
                        return Step::Run(git_cmd2(worktree_path, "rebase", "--abort"));
                    }
                    let files = listed_files_of(&outcomes[k + 1]);
                    let diff = crate::process::stdout_text(&outcomes[k + 2]);
                    return Step::Done(
                        MergeResult::Conflict { conflicting_files: files, conflict_diff: diff },
                    );
                }
                if outcomes.len() == k + 1 {
                    return Step::Run(git_cmd2(worktree_path, "rebase", "--abort"));
                }
                return Step::Done(
                    MergeResult::Error {
                        message: failure_detail_of(&r.stdout, &r.stderr, "Unknown rebase error"),
                    },
                );
            }
            if outcomes.len() == k + 1 {
                return Step::Run(git_cmd3(repo_path, "merge", "--ff-only", feature_branch));
            }
            match &outcomes[k + 1] {
                Err(e) => Step::Done(
                    MergeResult::Error {
                        message: cat("Failed to run git merge --ff-only: ", e.as_str()),
                    },
                ),
                Ok(f) => if f.success {
                    get_head_commit_hash(repo_path, outcomes, k + 2)
                } else {
                    Step::Done(
                        MergeResult::Error {
                            message: cat("Fast-forward merge failed: ", f.stderr.as_str()),
                        },
                    )
                },
            }
        },
    }
}

/// Merges `feature_branch` into `base_branch` in the main repository: refuses
/// when the main repository has uncommitted changes, checks out the base branch,
/// pulls it from `origin` (best effort), then merges, squashes, or rebases and
/// fast-forwards. Conflicts are collected and the operation aborted.
pub fn merge_branch_to_base(
    repo_path: &str,
    worktree_path: &str,
    feature_branch: &str,
    base_branch: &str,
    merge_type: MergeType,
    outcomes: &Vec<Outcome>,
) -> (r: Step<MergeResult>)
    ensures
        merge_step(r) == merge_branch_to_base_next(
            repo_path@,
            worktree_path@,
            feature_branch@,
            base_branch@,
            merge_type,
            outcomes@,
        ),
{
    if outcomes.len() == 0 {
        return Step::Run(git_cmd2(repo_path, "status", "--porcelain"));
    }
    if let Ok(o) = &outcomes[0] {
        if porcelain_shows_changes(o) {
            return Step::Done(
                MergeResult::Error {
                    message: own(
                        "Cannot merge: there are uncommitted changes in the base branch. Please commit or stash them first.",
                    ),
                },
            );
        }
    }
    if outcomes.len() == 1 {
        return Step::Run(git_cmd2(repo_path, "checkout", base_branch));
    }
    match &outcomes[1] {
        Err(e) => Step::Done(
            MergeResult::Error { message: cat("Failed to run git checkout: ", e.as_str()) },
        ),
        Ok(c) => {
            if !c.success {
                let mut m = cat3("Failed to checkout ", base_branch, ": ");
                m.append(c.stderr.as_str());
                return Step::Done(MergeResult::Error { message: m });
            }
            if outcomes.len() == 2 {
                return Step::Run(git_cmd3(repo_path, "pull", "origin", base_branch));
            }
            match merge_type {
                MergeType::Rebase => rebase_and_merge(
                    repo_path,
                    worktree_path,
                    feature_branch,
                    base_branch,
                    outcomes,
                    3,
                ),
                MergeType::Merge => perform_merge(repo_path, feature_branch, false, outcomes, 3),
                MergeType::Squash => perform_merge(repo_path, feature_branch, true, outcomes, 3),
            }
        },
    }
}

} // verus!
