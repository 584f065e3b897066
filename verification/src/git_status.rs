//! The status of a worktree's branch against its base branch and its remote,
//! as a command protocol (see [`crate::process`]).
use crate::error::{BackendError, BackendErrorCode};
use crate::git_ops::trim_string;
use crate::merge::nonempty_only;
use crate::process::{
    cat, cat3, git, git_in, opt_str, own, read_file, read_file_in, strs, succeeded, InvocationView,
    Next, Outcome, Step,
};
use crate::text::{
    chars_of, lines, parse_u32, parse_u32_chars, split, split_char, split_lines, str_eq, string_of,
    texts, trim,
};
use vstd::prelude::*;

verus! {

/// A worktree whose branch status is asked for.
#[derive(Clone, Debug)]
pub struct ActiveWorktreeInfo {
    pub worktree_id: String,
    pub worktree_path: String,
    pub base_branch: String,
    pub pr_number: Option<u32>,
    pub pr_url: Option<String>,
    /// The remote a pull request's branch is pushed to, when known.
    pub pr_push_remote: Option<String>,
    /// The branch on `pr_push_remote`, when known.
    pub pr_push_branch: Option<String>,
}

/// Commit and line counts of a worktree's branch.
#[derive(Clone, Debug)]
pub struct GitBranchStatus {
    pub worktree_id: String,
    pub current_branch: String,
    pub base_branch: String,
    /// Commits on `origin/<base>` not in `HEAD`.
    pub behind_count: u32,
    /// Commits in `HEAD` not on `origin/<base>`.
    pub ahead_count: u32,
    pub has_updates: bool,
    /// Seconds since the Unix epoch at the check.
    pub checked_at: u64,
    /// Lines added in the working tree and index, untracked files included.
    pub uncommitted_added: u32,
    pub uncommitted_removed: u32,
    /// Lines changed since the merge base with `origin/<base>`.
    pub branch_diff_added: u32,
    pub branch_diff_removed: u32,
    /// Commits on local `<base>` not on `origin/<base>`.
    pub base_branch_ahead_count: u32,
    /// Commits on `origin/<base>` not on local `<base>`.
    pub base_branch_behind_count: u32,
    /// Commits in `HEAD` not on local `<base>`.
    pub worktree_ahead_count: u32,
    /// Commits in `HEAD` not yet on the branch's remote.
    pub unpushed_count: u32,
}

pub struct WorktreeInfoView {
    pub worktree_id: Seq<char>,
    pub worktree_path: Seq<char>,
    pub base_branch: Seq<char>,
    pub pr_push_remote: Option<Seq<char>>,
    pub pr_push_branch: Option<Seq<char>>,
}

pub struct BranchStatusView {
    pub worktree_id: Seq<char>,
    pub current_branch: Seq<char>,
    pub base_branch: Seq<char>,
    pub behind_count: u32,
    pub ahead_count: u32,
    pub has_updates: bool,
    pub checked_at: u64,
    pub uncommitted_added: u32,
    pub uncommitted_removed: u32,
    pub branch_diff_added: u32,
    pub branch_diff_removed: u32,
    pub base_branch_ahead_count: u32,
    pub base_branch_behind_count: u32,
    pub worktree_ahead_count: u32,
    pub unpushed_count: u32,
}

impl View for ActiveWorktreeInfo {
    type V = WorktreeInfoView;

    open spec fn view(&self) -> WorktreeInfoView {
        WorktreeInfoView {
            worktree_id: self.worktree_id@,
            worktree_path: self.worktree_path@,
            base_branch: self.base_branch@,
            pr_push_remote: opt_str(self.pr_push_remote),
            pr_push_branch: opt_str(self.pr_push_branch),
        }
    }
}

impl View for GitBranchStatus {
    type V = BranchStatusView;

    open spec fn view(&self) -> BranchStatusView {
        BranchStatusView {
            worktree_id: self.worktree_id@,
            current_branch: self.current_branch@,
            base_branch: self.base_branch@,
            behind_count: self.behind_count,
            ahead_count: self.ahead_count,
            has_updates: self.has_updates,
            checked_at: self.checked_at,
            uncommitted_added: self.uncommitted_added,
            uncommitted_removed: self.uncommitted_removed,
            branch_diff_added: self.branch_diff_added,
            branch_diff_removed: self.branch_diff_removed,
            base_branch_ahead_count: self.base_branch_ahead_count,
            base_branch_behind_count: self.base_branch_behind_count,
            worktree_ahead_count: self.worktree_ahead_count,
            unpushed_count: self.unpushed_count,
        }
    }
}

/// A status step in mathematical form.
pub open spec fn status_step(s: Step<Result<GitBranchStatus, BackendError>>) -> Next<
    Result<BranchStatusView, (BackendErrorCode, Seq<char>)>,
> {
    match s {
        Step::Run(i) => Next::Run(i@),
        Step::Done(Ok(v)) => Next::Done(Ok(v@)),
        Step::Done(Err(e)) => Next::Done(Err((e.code, e.message@))),
    }
}

// ---------------------------------------------------------------------------
// Reading git's answers
// ---------------------------------------------------------------------------

/// The trimmed output of a command that succeeded.
pub open spec fn text_of(o: Outcome) -> Option<Seq<char>> {
    match o {
        Ok(out) => if out.success {
            Some(trim(out.stdout@))
        } else {
            None
        },
        Err(_) => None,
    }
}

/// Why a command gave no text: the error that kept it from starting, or its
/// trimmed standard error.
pub open spec fn text_error(o: Outcome) -> Seq<char> {
    match o {
        Ok(out) => trim(out.stderr@),
        Err(e) => e@,
    }
}

/// A count printed by `git rev-list --count`; 0 when there is none.
pub open spec fn count_of(o: Outcome) -> u32 {
    match text_of(o) {
        Some(t) => match parse_u32(t) {
            Some(n) => n,
            None => 0,
        },
        None => 0,
    }
}

/// The number in column `col` of a tab-separated line; 0 when there is none
/// (`-` for a binary file, for example).
pub open spec fn field_value(line: Seq<char>, col: int) -> nat {
    let fields = split(line, '\t');
    if col < fields.len() {
        match parse_u32(fields[col]) {
            Some(n) => n as nat,
            None => 0,
        }
    } else {
        0
    }
}

/// The sum of column `col` over the lines.
pub open spec fn column_sum(ls: Seq<Seq<char>>, col: int) -> nat
    decreases ls.len(),
{
    if ls.len() == 0 {
        0
    } else {
        column_sum(ls.drop_last(), col) + field_value(ls.last(), col)
    }
}

/// A count limited to the `u32` range.
pub open spec fn cap(n: nat) -> u32 {
    if n > u32::MAX {
        u32::MAX
    } else {
        n as u32
    }
}

/// Lines added and removed, summed from `git diff --numstat` output.
pub open spec fn numstat_of(o: Outcome) -> (u32, u32) {
    match text_of(o) {
        Some(t) => (cap(column_sum(lines(t), 0)), cap(column_sum(lines(t), 1))),
        None => (0, 0),
    }
}

/// The untracked files listed by `git ls-files --others --exclude-standard`.
pub open spec fn untracked_paths(o: Outcome) -> Seq<Seq<char>> {
    nonempty_only(
        lines(
            match text_of(o) {
                Some(t) => t,
                None => seq![],
            },
        ),
    )
}

/// The lines an untracked file adds: its line count, at least 1; 1 when it
/// cannot be read as text.
pub open spec fn file_line_count(o: Outcome) -> nat {
    match o {
        Ok(out) => {
            let n = lines(out.stdout@).len();
            if n == 0 {
                1
            } else if n > u32::MAX {
                u32::MAX as nat
            } else {
                n
            }
        },
        Err(_) => 1,
    }
}

/// The lines added by the `n` untracked files read at `outs[from..from + n]`.
pub open spec fn untracked_total(outs: Seq<Outcome>, from: int, n: nat) -> nat
    decreases n,
{
    if n == 0 {
        0
    } else {
        untracked_total(outs, from, (n - 1) as nat) + file_line_count(outs[from + n - 1])
    }
}

// ---------------------------------------------------------------------------
// The protocol
// ---------------------------------------------------------------------------

/// `git rev-list --count <from>..<to>`.
pub open spec fn rev_count(repo: Seq<char>, from: Seq<char>, to: Seq<char>) -> InvocationView {
    git(repo, seq!["rev-list"@, "--count"@, from + ".."@ + to])
}

/// `git rev-parse --verify --quiet <reference>`.
pub open spec fn verify_ref(repo: Seq<char>, reference: Seq<char>) -> InvocationView {
    git(repo, seq!["rev-parse"@, "--verify"@, "--quiet"@, reference])
}

/// The commands asked right after the current branch is known.
pub open spec fn early_cmd(repo: Seq<char>, base: Seq<char>, i: int) -> InvocationView {
    if i == 0 {
        rev_count(repo, "HEAD"@, "origin/"@ + base)
    } else if i == 1 {
        rev_count(repo, "origin/"@ + base, "HEAD"@)
    } else if i == 2 {
        git(repo, seq!["diff"@, "--numstat"@])
    } else if i == 3 {
        git(repo, seq!["diff"@, "--cached"@, "--numstat"@])
    } else {
        git(repo, seq!["ls-files"@, "--others"@, "--exclude-standard"@])
    }
}

/// The commands asked after the untracked files were read.
pub open spec fn late_cmd(repo: Seq<char>, base: Seq<char>, i: int) -> InvocationView {
    if i == 0 {
        git(repo, seq!["diff"@, "--numstat"@, "origin/"@ + base + "...HEAD"@])
    } else if i == 1 {
        rev_count(repo, "origin/"@ + base, base)
    } else if i == 2 {
        rev_count(repo, base, "origin/"@ + base)
    } else {
        rev_count(repo, base, "HEAD"@)
    }
}

/// The status, given the current branch `cur`, the outcomes of the early
/// commands at `k..k + 5`, the untracked files read up to `m`, the late
/// commands at `m..m + 4`, and the unpushed count.
pub open spec fn status_view(
    info: WorktreeInfoView,
    now: u64,
    cur: Seq<char>,
    outs: Seq<Outcome>,
    k: int,
    m: int,
    unpushed: u32,
) -> BranchStatusView {
    BranchStatusView {
        worktree_id: info.worktree_id,
        current_branch: cur,
        base_branch: info.base_branch,
        behind_count: count_of(outs[k]),
        ahead_count: count_of(outs[k + 1]),
        has_updates: count_of(outs[k]) > 0,
        checked_at: now,
        uncommitted_added: cap(
            (numstat_of(outs[k + 2]).0 + numstat_of(outs[k + 3]).0 + cap(
                untracked_total(outs, k + 5, (m - k - 5) as nat),
            )) as nat,
        ),
        uncommitted_removed: cap((numstat_of(outs[k + 2]).1 + numstat_of(outs[k + 3]).1) as nat),
        branch_diff_added: numstat_of(outs[m]).0,
        branch_diff_removed: numstat_of(outs[m]).1,
        base_branch_ahead_count: count_of(outs[m + 1]),
        base_branch_behind_count: count_of(outs[m + 2]),
        worktree_ahead_count: count_of(outs[m + 3]),
        unpushed_count: unpushed,
    }
}

/// Finishing with the unpushed count `unpushed`.
pub open spec fn status_done(
    info: WorktreeInfoView,
    now: u64,
    cur: Seq<char>,
    outs: Seq<Outcome>,
    k: int,
    m: int,
    unpushed: u32,
) -> Next<Result<BranchStatusView, (BackendErrorCode, Seq<char>)>> {
    Next::Done(Ok(status_view(info, now, cur, outs, k, m, unpushed)))
}

/// Commits not yet pushed: on the base branch, those ahead of `origin`; with
/// a known pull request remote, those ahead of it; else those ahead of the
/// upstream, or of `origin/<current>`; else those ahead of the base branch.
pub open spec fn unpushed_phase(
    info: WorktreeInfoView,
    now: u64,
    cur: Seq<char>,
    outs: Seq<Outcome>,
    k: int,
    m: int,
) -> Next<Result<BranchStatusView, (BackendErrorCode, Seq<char>)>> {
    let repo = info.worktree_path;
    let j = m + 4;
    let worktree_ahead = count_of(outs[m + 3]);
    if cur == info.base_branch {
        status_done(info, now, cur, outs, k, m, count_of(outs[m + 1]))
    } else if info.pr_push_remote is Some && info.pr_push_branch is Some {
        let remote = info.pr_push_remote->0;
        let branch = info.pr_push_branch->0;
        let push_ref = remote + "/"@ + branch;
        if outs.len() <= j {
            Next::Run(git(repo, seq!["fetch"@, remote, branch]))
        } else if outs.len() <= j + 1 {
            Next::Run(verify_ref(repo, push_ref))
        } else if succeeded(outs[j + 1]) {
            if outs.len() <= j + 2 {
                Next::Run(rev_count(repo, push_ref, "HEAD"@))
            } else {
                status_done(info, now, cur, outs, k, m, count_of(outs[j + 2]))
            }
        } else {
            status_done(info, now, cur, outs, k, m, worktree_ahead)
        }
    } else if outs.len() <= j {
        Next::Run(git(repo, seq!["rev-parse"@, "--abbrev-ref"@, "@{upstream}"@]))
    } else if text_of(outs[j]) is Some && text_of(outs[j])->0.len() > 0 {
        let upstream = text_of(outs[j])->0;
        if outs.len() <= j + 1 {
            Next::Run(git(repo, seq!["fetch"@, split(upstream, '/')[0], cur]))
        } else if outs.len() <= j + 2 {
            Next::Run(rev_count(repo, upstream, "HEAD"@))
        } else {
            status_done(info, now, cur, outs, k, m, count_of(outs[j + 2]))
        }
    } else if outs.len() <= j + 1 {
        Next::Run(git(repo, seq!["fetch"@, "origin"@, cur]))
    } else if outs.len() <= j + 2 {
        Next::Run(verify_ref(repo, "origin/"@ + cur))
    } else if succeeded(outs[j + 2]) {
        if outs.len() <= j + 3 {
            Next::Run(rev_count(repo, "origin/"@ + cur, "HEAD"@))
        } else {
            status_done(info, now, cur, outs, k, m, count_of(outs[j + 3]))
        }
    } else {
        status_done(info, now, cur, outs, k, m, worktree_ahead)
    }
}

/// The counts, once the current branch `cur` is known (its query ended at `k`).
pub open spec fn counts_phase(
    info: WorktreeInfoView,
    now: u64,
    cur: Seq<char>,
    outs: Seq<Outcome>,
    k: int,
) -> Next<Result<BranchStatusView, (BackendErrorCode, Seq<char>)>> {
    let repo = info.worktree_path;
    let base = info.base_branch;
    if outs.len() < k + 5 {
        Next::Run(early_cmd(repo, base, outs.len() - k))
    } else {
        let paths = untracked_paths(outs[k + 4]);
        let r = k + 5;
        if outs.len() < r + paths.len() {
            Next::Run(read_file(repo, paths[outs.len() - r]))
        } else {
            let m = r + paths.len();
            if outs.len() < m + 4 {
                Next::Run(late_cmd(repo, base, outs.len() - m))
            } else {
                unpushed_phase(info, now, cur, outs, k, m)
            }
        }
    }
}

/// The protocol of [`branch_status`].
pub open spec fn branch_status_next(info: WorktreeInfoView, now: u64, outs: Seq<Outcome>) -> Next<
    Result<BranchStatusView, (BackendErrorCode, Seq<char>)>,
> {
    let repo = info.worktree_path;
    if outs.len() == 0 {
        Next::Run(git(repo, seq!["fetch"@, "origin"@, info.base_branch]))
    } else if outs.len() == 1 {
        Next::Run(git(repo, seq!["symbolic-ref"@, "--short"@, "HEAD"@]))
    } else if text_of(outs[1]) is Some {
        counts_phase(info, now, text_of(outs[1])->0, outs, 2)
    } else if outs.len() == 2 {
        Next::Run(git(repo, seq!["rev-parse"@, "--abbrev-ref"@, "HEAD"@]))
    } else if text_of(outs[2]) is Some {
        counts_phase(info, now, text_of(outs[2])->0, outs, 3)
    } else {
        Next::Done(Err((BackendErrorCode::Io, text_error(outs[2]))))
    }
}

// ---------------------------------------------------------------------------
// Implementation
// ---------------------------------------------------------------------------

fn text_of_outcome(o: &Outcome) -> (r: Option<String>)
    ensures
        opt_str(r) == text_of(*o),
{
    match o {
        Ok(out) => if out.success {
            Some(trim_string(&out.stdout))
        } else {
            None
        },
        Err(_) => None,
    }
}

fn count_from(o: &Outcome) -> (r: u32)
    ensures
        r == count_of(*o),
{
    match text_of_outcome(o) {
        Some(t) => match parse_u32_chars(chars_of(t.as_str()).as_slice()) {
            Some(n) => n,
            None => 0,
        },
        None => 0,
    }
}

fn field_at(line: &[char], col: usize) -> (r: u32)
    ensures
        r as nat == field_value(line@, col as int),
{
    let fields = split_char(line, '\t');
    if col < fields.len() {
        assert(texts(fields@)[col as int] == fields@[col as int]@);
        match parse_u32_chars(fields[col].as_slice()) {
            Some(n) => n,
            None => 0,
        }
    } else {
        0
    }
}

fn numstat_from(o: &Outcome) -> (r: (u32, u32))
    ensures
        r == numstat_of(*o),
{
    let t = match text_of_outcome(o) {
        Some(t) => t,
        None => {
            return (0, 0);
        },
    };
    let ls = split_lines(chars_of(t.as_str()).as_slice());
    let ghost all = texts(ls@);
    let mut added: u32 = 0;
    let mut removed: u32 = 0;
    let mut i: usize = 0;
    assert(all.take(0) =~= Seq::<Seq<char>>::empty());
    while i < ls.len()
        invariant
            i <= ls@.len(),
            all == texts(ls@),
            added == cap(column_sum(all.take(i as int), 0)),
            removed == cap(column_sum(all.take(i as int), 1)),
        decreases ls.len() - i,
    {
        assert(all.take(i + 1).drop_last() =~= all.take(i as int));
        assert(all.take(i + 1).last() == ls@[i as int]@);
        added = added.saturating_add(field_at(ls[i].as_slice(), 0));
        removed = removed.saturating_add(field_at(ls[i].as_slice(), 1));
        i = i + 1;
    }
    assert(all.take(ls@.len() as int) =~= all);
    (added, removed)
}

fn untracked_paths_of(o: &Outcome) -> (r: Vec<String>)
    ensures
        strs(r@) == untracked_paths(*o),
{
    let t = match text_of_outcome(o) {
        Some(t) => t,
        None => String::new(),
    };
    let ls = split_lines(chars_of(t.as_str()).as_slice());
    let mut r: Vec<String> = Vec::new();
    let mut i: usize = 0;
    assert(texts(ls@).take(0) =~= Seq::<Seq<char>>::empty());
    while i < ls.len()
        invariant
            i <= ls@.len(),
            strs(r@) == nonempty_only(texts(ls@).take(i as int)),
        decreases ls.len() - i,
    {
        assert(texts(ls@).take(i + 1).drop_last() =~= texts(ls@).take(i as int));
        assert(texts(ls@).take(i + 1).last() == ls@[i as int]@);
        if ls[i].len() > 0 {
            let ghost before = strs(r@);
            r.push(string_of(ls[i].as_slice()));
            assert(strs(r@) =~= before.push(ls@[i as int]@));
        }
        i = i + 1;
    }
    assert(texts(ls@).take(ls@.len() as int) =~= texts(ls@));
    r
}

fn file_line_count_of(o: &Outcome) -> (r: u32)
    ensures
        r as nat == file_line_count(*o),
{
    match o {
        Ok(out) => {
            let n = split_lines(chars_of(out.stdout.as_str()).as_slice()).len();
            if n == 0 {
                1
            } else if n > 0xffff_ffff {
                0xffff_ffff
            } else {
                n as u32
            }
        },
        Err(_) => 1,
    }
}

fn untracked_sum(outcomes: &Vec<Outcome>, from: usize, n: usize) -> (r: u32)
    requires
        from + n <= outcomes@.len(),
    ensures
        r == cap(untracked_total(outcomes@, from as int, n as nat)),
{
    let mut total: u32 = 0;
    let mut i: usize = 0;
    let len = outcomes.len();
    while i < n
        invariant
            i <= n,
            len == outcomes@.len(),
            from + n <= outcomes@.len(),
            total == cap(untracked_total(outcomes@, from as int, i as nat)),
        decreases n - i,
    {
        total = total.saturating_add(file_line_count_of(&outcomes[from + i]));
        i = i + 1;
    }
    total
}

fn rev_count_in(repo: &str, from: &str, to: &str) -> (inv: crate::process::Invocation)
    ensures
        inv@ == rev_count(repo@, from@, to@),
{
    let args = vec![own("rev-list"), own("--count"), cat3(from, "..", to)];
    assert(strs(args@) =~= seq!["rev-list"@, "--count"@, from@ + ".."@ + to@]);
    git_in(repo, args)
}

fn verify_ref_in(repo: &str, reference: &str) -> (inv: crate::process::Invocation)
    ensures
        inv@ == verify_ref(repo@, reference@),
{
    let args = vec![own("rev-parse"), own("--verify"), own("--quiet"), own(reference)];
    assert(strs(args@) =~= seq!["rev-parse"@, "--verify"@, "--quiet"@, reference@]);
    git_in(repo, args)
}

fn early_cmd_in(repo: &str, base: &str, i: usize) -> (inv: crate::process::Invocation)
    ensures
        inv@ == early_cmd(repo@, base@, i as int),
{
    let origin_base = cat("origin/", base);
    if i == 0 {
        rev_count_in(repo, "HEAD", origin_base.as_str())
    } else if i == 1 {
        rev_count_in(repo, origin_base.as_str(), "HEAD")
    } else if i == 2 {
        let args = vec![own("diff"), own("--numstat")];
        assert(strs(args@) =~= seq!["diff"@, "--numstat"@]);
        git_in(repo, args)
    } else if i == 3 {
        let args = vec![own("diff"), own("--cached"), own("--numstat")];
        assert(strs(args@) =~= seq!["diff"@, "--cached"@, "--numstat"@]);
        git_in(repo, args)
    } else {
        let args = vec![own("ls-files"), own("--others"), own("--exclude-standard")];
        assert(strs(args@) =~= seq!["ls-files"@, "--others"@, "--exclude-standard"@]);
        git_in(repo, args)
    }
}

fn late_cmd_in(repo: &str, base: &str, i: usize) -> (inv: crate::process::Invocation)
    ensures
        inv@ == late_cmd(repo@, base@, i as int),
{
    let origin_base = cat("origin/", base);
    if i == 0 {
        let args = vec![own("diff"), own("--numstat"), cat(origin_base.as_str(), "...HEAD")];
        assert(strs(args@) =~= seq!["diff"@, "--numstat"@, "origin/"@ + base@ + "...HEAD"@]);
        git_in(repo, args)
    } else if i == 1 {
        rev_count_in(repo, origin_base.as_str(), base)
    } else if i == 2 {
        rev_count_in(repo, base, origin_base.as_str())
    } else {
        rev_count_in(repo, base, "HEAD")
    }
}

fn finish(
    info: &ActiveWorktreeInfo,
    now: u64,
    cur: &str,
    outcomes: &Vec<Outcome>,
    k: usize,
    m: usize,
    unpushed: u32,
) -> (r: Step<Result<GitBranchStatus, BackendError>>)
    requires
        k + 5 <= m,
        m + 4 <= outcomes@.len(),
    ensures
        status_step(r) == status_done(info@, now, cur@, outcomes@, k as int, m as int, unpushed),
{
    // The length, read once, bounds the indices below within `usize`.
    let _len = outcomes.len();
    let behind = count_from(&outcomes[k]);
    let ahead = count_from(&outcomes[k + 1]);
    let unstaged = numstat_from(&outcomes[k + 2]);
    let staged = numstat_from(&outcomes[k + 3]);
    let untracked = untracked_sum(outcomes, k + 5, m - k - 5);
    let diff = numstat_from(&outcomes[m]);
    Step::Done(
        Ok(
            GitBranchStatus {
                worktree_id: info.worktree_id.clone(),
                current_branch: own(cur),
                base_branch: info.base_branch.clone(),
                behind_count: behind,
                ahead_count: ahead,
                has_updates: behind > 0,
                checked_at: now,
                uncommitted_added: unstaged.0.saturating_add(staged.0).saturating_add(untracked),
                uncommitted_removed: unstaged.1.saturating_add(staged.1),
                branch_diff_added: diff.0,
                branch_diff_removed: diff.1,
                base_branch_ahead_count: count_from(&outcomes[m + 1]),
                base_branch_behind_count: count_from(&outcomes[m + 2]),
                worktree_ahead_count: count_from(&outcomes[m + 3]),
                unpushed_count: unpushed,
            },
        ),
    )
}

fn first_piece(s: &str) -> (r: String)
    ensures
        r@ == split(s@, '/')[0],
{
    let pieces = split_char(chars_of(s).as_slice(), '/');
    proof {
        crate::text::lemma_split_nonempty(s@, '/');
    }
    assert(texts(pieces@)[0] == pieces@[0]@);
    string_of(pieces[0].as_slice())
}

fn unpushed_step(
    info: &ActiveWorktreeInfo,
    now: u64,
    cur: &str,
    outcomes: &Vec<Outcome>,
    k: usize,
    m: usize,
) -> (r: Step<Result<GitBranchStatus, BackendError>>)
    requires
        k + 5 <= m,
        m + 4 <= outcomes@.len(),
    ensures
        status_step(r) == unpushed_phase(info@, now, cur@, outcomes@, k as int, m as int),
{
    let repo = info.worktree_path.as_str();
    // The length, read once, bounds the indices below within `usize`.
    let _len = outcomes.len();
    let j = m + 4;
    if str_eq(cur, info.base_branch.as_str()) {
        let base_ahead = count_from(&outcomes[m + 1]);
        return finish(info, now, cur, outcomes, k, m, base_ahead);
    }
    if let (Some(remote), Some(branch)) = (&info.pr_push_remote, &info.pr_push_branch) {
        let push_ref = cat3(remote.as_str(), "/", branch.as_str());
        if outcomes.len() <= j {
            let args = vec![own("fetch"), remote.clone(), branch.clone()];
            assert(strs(args@) =~= seq!["fetch"@, remote@, branch@]);
            return Step::Run(git_in(repo, args));
        }
        if outcomes.len() <= j + 1 {
            return Step::Run(verify_ref_in(repo, push_ref.as_str()));
        }
        if crate::process::ok_and_success(&outcomes[j + 1]) {
            if outcomes.len() <= j + 2 {
                return Step::Run(rev_count_in(repo, push_ref.as_str(), "HEAD"));
            }
            let n = count_from(&outcomes[j + 2]);
            return finish(info, now, cur, outcomes, k, m, n);
        }
        let n = count_from(&outcomes[m + 3]);
        return finish(info, now, cur, outcomes, k, m, n);
    }
    if outcomes.len() <= j {
        let args = vec![own("rev-parse"), own("--abbrev-ref"), own("@{upstream}")];
        assert(strs(args@) =~= seq!["rev-parse"@, "--abbrev-ref"@, "@{upstream}"@]);
        return Step::Run(git_in(repo, args));
    }
    let upstream = text_of_outcome(&outcomes[j]);
    if let Some(u) = upstream {
        if !u.as_str().is_empty() {
            if outcomes.len() <= j + 1 {
                proof {
                    crate::text::lemma_split_nonempty(u@, '/');
                }
                let args = vec![own("fetch"), first_piece(u.as_str()), own(cur)];
                assert(strs(args@) =~= seq!["fetch"@, split(u@, '/')[0], cur@]);
                return Step::Run(git_in(repo, args));
            }
            if outcomes.len() <= j + 2 {
                return Step::Run(rev_count_in(repo, u.as_str(), "HEAD"));
            }
            let n = count_from(&outcomes[j + 2]);
            return finish(info, now, cur, outcomes, k, m, n);
        }
    }
    let origin_cur = cat("origin/", cur);
    if outcomes.len() <= j + 1 {
        let args = vec![own("fetch"), own("origin"), own(cur)];
        assert(strs(args@) =~= seq!["fetch"@, "origin"@, cur@]);
        return Step::Run(git_in(repo, args));
    }
    if outcomes.len() <= j + 2 {
        return Step::Run(verify_ref_in(repo, origin_cur.as_str()));
    }
    if crate::process::ok_and_success(&outcomes[j + 2]) {
        if outcomes.len() <= j + 3 {
            return Step::Run(rev_count_in(repo, origin_cur.as_str(), "HEAD"));
        }
        let n = count_from(&outcomes[j + 3]);
        return finish(info, now, cur, outcomes, k, m, n);
    }
    let n = count_from(&outcomes[m + 3]);
    finish(info, now, cur, outcomes, k, m, n)
}

fn counts_step(
    info: &ActiveWorktreeInfo,
    now: u64,
    cur: &str,
    outcomes: &Vec<Outcome>,
    k: usize,
) -> (r: Step<Result<GitBranchStatus, BackendError>>)
    requires
        k <= outcomes@.len(),
    ensures
        status_step(r) == counts_phase(info@, now, cur@, outcomes@, k as int),
{
    let repo = info.worktree_path.as_str();
    let base = info.base_branch.as_str();
    if outcomes.len() - k < 5 {
        return Step::Run(early_cmd_in(repo, base, outcomes.len() - k));
    }
    let paths = untracked_paths_of(&outcomes[k + 4]);
    let r = k + 5;
    if outcomes.len() - r < paths.len() {
        let i = outcomes.len() - r;
        assert(strs(paths@)[i as int] == paths@[i as int]@);
        return Step::Run(read_file_in(repo, paths[i].clone()));
    }
    let m = r + paths.len();
    if outcomes.len() - m < 4 {
        return Step::Run(late_cmd_in(repo, base, outcomes.len() - m));
    }
    unpushed_step(info, now, cur, outcomes, k, m)
}

/// The status of the worktree's branch at time `now` (seconds since the Unix
/// epoch): fetches the base branch, finds the current branch (falling back to
/// `rev-parse` for a detached `HEAD`), then counts commits and changed lines.
/// Counts that git does not give are 0; sums stop at `u32::MAX`.
pub fn branch_status(info: &ActiveWorktreeInfo, now: u64, outcomes: &Vec<Outcome>) -> (r: Step<
    Result<GitBranchStatus, BackendError>,
>)
    ensures
        status_step(r) == branch_status_next(info@, now, outcomes@),
{
    let repo = info.worktree_path.as_str();
    if outcomes.len() == 0 {
        let args = vec![own("fetch"), own("origin"), info.base_branch.clone()];
        assert(strs(args@) =~= seq!["fetch"@, "origin"@, info.base_branch@]);
        return Step::Run(git_in(repo, args));
    }
    if outcomes.len() == 1 {
        let args = vec![own("symbolic-ref"), own("--short"), own("HEAD")];
        assert(strs(args@) =~= seq!["symbolic-ref"@, "--short"@, "HEAD"@]);
        return Step::Run(git_in(repo, args));
    }
    if let Some(cur) = text_of_outcome(&outcomes[1]) {
        return counts_step(info, now, cur.as_str(), outcomes, 2);
    }
    if outcomes.len() == 2 {
        let args = vec![own("rev-parse"), own("--abbrev-ref"), own("HEAD")];
        assert(strs(args@) =~= seq!["rev-parse"@, "--abbrev-ref"@, "HEAD"@]);
        return Step::Run(git_in(repo, args));
    }
    if let Some(cur) = text_of_outcome(&outcomes[2]) {
        return counts_step(info, now, cur.as_str(), outcomes, 3);
    }
    let message = match &outcomes[2] {
        Ok(out) => trim_string(&out.stderr),
        Err(e) => e.clone(),
    };
    Step::Done(Err(BackendError::with_message(BackendErrorCode::Io, message)))
}

/// A status step with the error as its message, in mathematical form.
pub open spec fn status_text_step(s: Step<Result<GitBranchStatus, String>>) -> Next<
    Result<BranchStatusView, Seq<char>>,
> {
    match s {
        Step::Run(i) => Next::Run(i@),
        Step::Done(Ok(v)) => Next::Done(Ok(v@)),
        Step::Done(Err(e)) => Next::Done(Err(e@)),
    }
}

/// [`branch_status`], with the error as its message.
pub fn get_branch_status(info: &ActiveWorktreeInfo, now: u64, outcomes: &Vec<Outcome>) -> (r: Step<
    Result<GitBranchStatus, String>,
>)
    ensures
        status_text_step(r) == match branch_status_next(info@, now, outcomes@) {
            Next::Run(i) => Next::Run(i),
            Next::Done(Ok(v)) => Next::Done(Ok(v)),
            Next::Done(Err((_, message))) => Next::Done(Err(message)),
        },
{
    match branch_status(info, now, outcomes) {
        Step::Run(i) => Step::Run(i),
        Step::Done(Ok(v)) => Step::Done(Ok(v)),
        Step::Done(Err(e)) => Step::Done(Err(e.to_message())),
    }
}

} // verus!
