//! Pushing a worktree to the branch of its pull request, fork pull requests
//! included, as a command protocol (see [`crate::process`]).
use crate::json::{
    json_bool_at, json_bool_pointer, json_error, json_str_at, json_str_pointer, json_syntax_error,
};
use crate::merge::{is_permission_error, needs_upstream_retry, permission_error, push_needs_upstream_retry};
use crate::process::{
    cat, cat3, gh, git, git_in, gh_in, opt_str, own, strs, Next, Outcome, Output,
    Step,
};
use crate::text::{
    chars_of, contains, contains_seq, decimal, decimal_string, first_word, first_word_of, lines,
    split_lines, starts, starts_with_str, string_of, texts, trim, trimmed,
};
use vstd::prelude::*;

verus! {

/// What pushing to a pull request did.
#[derive(Clone, Debug)]
pub struct PushResult {
    /// What git printed (standard output, or standard error when that was empty).
    pub output: String,
    /// The push to the pull request's branch failed and a regular push was made instead.
    pub fell_back: bool,
    /// The push was refused for lack of permission (a fork without write access).
    pub permission_denied: bool,
    /// The remote pushed to; `None` on fallback or refusal.
    pub pushed_remote: Option<String>,
    /// The branch updated on `pushed_remote`; `None` on fallback or refusal.
    pub pushed_branch: Option<String>,
}

/// The mathematical form of a [`PushResult`].
pub struct PushResultView {
    pub output: Seq<char>,
    pub fell_back: bool,
    pub permission_denied: bool,
    pub pushed_remote: Option<Seq<char>>,
    pub pushed_branch: Option<Seq<char>>,
}

impl View for PushResult {
    type V = PushResultView;

    open spec fn view(&self) -> PushResultView {
        PushResultView {
            output: self.output@,
            fell_back: self.fell_back,
            permission_denied: self.permission_denied,
            pushed_remote: opt_str(self.pushed_remote),
            pushed_branch: opt_str(self.pushed_branch),
        }
    }
}

/// A push step in mathematical form.
pub open spec fn push_step(s: Step<Result<PushResult, String>>) -> Next<
    Result<PushResultView, Seq<char>>,
> {
    match s {
        Step::Run(i) => Next::Run(i@),
        Step::Done(Ok(p)) => Next::Done(Ok(p@)),
        Step::Done(Err(e)) => Next::Done(Err(e@)),
    }
}

/// What a successful push printed: standard output, or standard error when
/// standard output is empty (git reports pushes on standard error).
pub open spec fn push_output(o: Output) -> Seq<char> {
    if o.stdout@.len() == 0 {
        o.stderr@
    } else {
        o.stdout@
    }
}

fn push_output_of(o: &Output) -> (r: String)
    ensures
        r@ == push_output(*o),
{
    if o.stdout.as_str().is_empty() {
        o.stderr.clone()
    } else {
        o.stdout.clone()
    }
}

/// A regular push: `git push`, retried as `git push -u origin HEAD` when git
/// asks for an upstream. Yields what git printed.
pub open spec fn regular_push_phase(repo: Seq<char>, outs: Seq<Outcome>, k: int) -> Next<
    Result<Seq<char>, Seq<char>>,
> {
    if outs.len() <= k {
        Next::Run(git(repo, seq!["push"@]))
    } else {
        match outs[k] {
            Err(e) => Next::Done(Err("Failed to push: "@ + e@)),
            Ok(p) => if p.success {
                Next::Done(Ok(push_output(p)))
            } else if !needs_upstream_retry(p.stderr@) {
                Next::Done(Err("Failed to push: "@ + p.stderr@))
            } else if outs.len() <= k + 1 {
                Next::Run(git(repo, seq!["push"@, "-u"@, "origin"@, "HEAD"@]))
            } else {
                match outs[k + 1] {
                    Err(e) => Next::Done(Err("Failed to push: "@ + e@)),
                    Ok(u) => if u.success {
                        Next::Done(Ok(push_output(u)))
                    } else {
                        Next::Done(Err("Failed to push: "@ + u.stderr@))
                    },
                }
            },
        }
    }
}

/// The result of falling back to a regular push that printed `output`.
pub open spec fn fell_back(output: Seq<char>) -> PushResultView {
    PushResultView {
        output,
        fell_back: true,
        permission_denied: false,
        pushed_remote: None,
        pushed_branch: None,
    }
}

/// The result of a push refused for lack of permission.
pub open spec fn denied(stderr: Seq<char>) -> PushResultView {
    PushResultView {
        output: stderr,
        fell_back: false,
        permission_denied: true,
        pushed_remote: None,
        pushed_branch: None,
    }
}

/// The result of a push that updated `branch` on `remote`.
pub open spec fn pushed(output: Seq<char>, remote: Seq<char>, branch: Seq<char>) -> PushResultView {
    PushResultView {
        output,
        fell_back: false,
        permission_denied: false,
        pushed_remote: Some(remote),
        pushed_branch: Some(branch),
    }
}

/// Falling back to a regular push.
pub open spec fn fallback_phase(repo: Seq<char>, outs: Seq<Outcome>, k: int) -> Next<
    Result<PushResultView, Seq<char>>,
> {
    match regular_push_phase(repo, outs, k) {
        Next::Run(i) => Next::Run(i),
        Next::Done(Ok(output)) => Next::Done(Ok(fell_back(output))),
        Next::Done(Err(e)) => Next::Done(Err(e)),
    }
}

/// `git push --force-with-lease <remote> HEAD:<branch>`; a refusal for lack of
/// permission is reported, any other failure falls back to a regular push.
pub open spec fn lease_push_phase(
    repo: Seq<char>,
    remote: Seq<char>,
    branch: Seq<char>,
    failure: Seq<char>,
    outs: Seq<Outcome>,
    k: int,
) -> Next<Result<PushResultView, Seq<char>>> {
    if outs.len() <= k {
        Next::Run(git(repo, seq!["push"@, "--force-with-lease"@, remote, "HEAD:"@ + branch]))
    } else {
        match outs[k] {
            Err(e) => Next::Done(Err(failure + e@)),
            Ok(p) => if p.success {
                Next::Done(Ok(pushed(push_output(p), remote, branch)))
            } else if permission_error(p.stderr@) {
                Next::Done(Ok(denied(p.stderr@)))
            } else {
                fallback_phase(repo, outs, k + 1)
            },
        }
    }
}

/// The URL of a fork on GitHub, over SSH when `origin` uses SSH, else HTTPS.
pub open spec fn fork_url(origin_url: Seq<char>, owner: Seq<char>, name: Seq<char>) -> Seq<char> {
    if starts(origin_url, "git@"@) || starts(origin_url, "ssh://"@) {
        "git@github.com:"@ + owner + "/"@ + name + ".git"@
    } else {
        "https://github.com/"@ + owner + "/"@ + name + ".git"@
    }
}

/// The first line that mentions the fork (its URL or `owner/name`).
pub open spec fn first_line_mentioning(ls: Seq<Seq<char>>, url: Seq<char>, slug: Seq<char>) -> Option<
    Seq<char>,
>
    decreases ls.len(),
{
    if ls.len() == 0 {
        None
    } else if contains_seq(ls[0], url) || contains_seq(ls[0], slug) {
        Some(ls[0])
    } else {
        first_line_mentioning(ls.drop_first(), url, slug)
    }
}

/// The name of an existing remote for the fork, read from `git remote -v`.
pub open spec fn fork_remote(remotes: Seq<char>, url: Seq<char>, slug: Seq<char>) -> Option<Seq<char>> {
    match first_line_mentioning(lines(remotes), url, slug) {
        Some(line) => first_word(line),
        None => None,
    }
}

/// Fetch the branch from the fork's remote (a failure is tolerated), then push.
pub open spec fn fork_fetch_phase(
    repo: Seq<char>,
    remote: Seq<char>,
    branch: Seq<char>,
    outs: Seq<Outcome>,
    k: int,
) -> Next<Result<PushResultView, Seq<char>>> {
    if outs.len() <= k {
        Next::Run(git(repo, seq!["fetch"@, remote, branch]))
    } else {
        match outs[k] {
            Err(e) => Next::Done(Err("Failed to fetch from fork: "@ + e@)),
            Ok(_) => lease_push_phase(repo, remote, branch, "Failed to push to fork: "@, outs, k + 1),
        }
    }
}

/// A fork pull request: find or add a remote for the fork, fetch, then push.
pub open spec fn fork_phase(
    repo: Seq<char>,
    branch: Seq<char>,
    owner: Seq<char>,
    name: Seq<char>,
    outs: Seq<Outcome>,
) -> Next<Result<PushResultView, Seq<char>>> {
    if outs.len() <= 1 {
        Next::Run(git(repo, seq!["remote"@, "get-url"@, "origin"@]))
    } else {
        match outs[1] {
            Err(e) => Next::Done(Err("Failed to get origin URL: "@ + e@)),
            Ok(u) => {
                let url = fork_url(trim(u.stdout@), owner, name);
                if outs.len() <= 2 {
                    Next::Run(git(repo, seq!["remote"@, "-v"@]))
                } else {
                    match outs[2] {
                        Err(e) => Next::Done(Err("Failed to list remotes: "@ + e@)),
                        Ok(r) => match fork_remote(r.stdout@, url, owner + "/"@ + name) {
                            Some(remote) => fork_fetch_phase(repo, remote, branch, outs, 3),
                            None => if outs.len() <= 3 {
                                Next::Run(git(repo, seq!["remote"@, "add"@, owner, url]))
                            } else {
                                fork_fetch_phase(repo, owner, branch, outs, 4)
                            },
                        },
                    }
                }
            },
        }
    }
}

/// The fields asked of `gh pr view`.
pub open spec fn pr_view_fields() -> Seq<char> {
    "headRefName,isCrossRepository,headRepositoryOwner,headRepository"@
}

/// Reading the pull request's head from `gh pr view` output and pushing to it.
pub open spec fn pr_info_phase(repo: Seq<char>, info: Seq<char>, outs: Seq<Outcome>) -> Next<
    Result<PushResultView, Seq<char>>,
> {
    match json_error(info) {
        Some(e) => Next::Done(Err("Failed to parse gh pr view output: "@ + e)),
        None => match json_str_pointer(info, "/headRefName"@) {
            None => Next::Done(Err("Missing headRefName in PR info"@)),
            Some(branch) => if json_bool_pointer(info, "/isCrossRepository"@) != Some(true) {
                lease_push_phase(repo, "origin"@, branch, "Failed to run git push: "@, outs, 1)
            } else {
                match json_str_pointer(info, "/headRepositoryOwner/login"@) {
                    None => Next::Done(Err("Missing headRepositoryOwner.login in PR info"@)),
                    Some(owner) => match json_str_pointer(info, "/headRepository/name"@) {
                        None => Next::Done(Err("Missing headRepository.name in PR info"@)),
                        Some(name) => fork_phase(repo, branch, owner, name, outs),
                    },
                }
            },
        },
    }
}

/// The protocol of [`git_push_to_pr`].
pub open spec fn push_to_pr_next(repo: Seq<char>, pr_number: u32, outs: Seq<Outcome>) -> Next<
    Result<PushResultView, Seq<char>>,
> {
    if outs.len() == 0 {
        Next::Run(
            gh(
                repo,
                seq!["pr"@, "view"@, decimal(pr_number as nat), "--json"@, pr_view_fields()],
            ),
        )
    } else {
        match outs[0] {
            Err(e) => Next::Done(Err("Failed to run gh pr view: "@ + e@)),
            Ok(v) => if !v.success {
                fallback_phase(repo, outs, 1)
            } else {
                pr_info_phase(repo, v.stdout@, outs)
            },
        }
    }
}

fn regular_push(repo_path: &str, outcomes: &Vec<Outcome>, k: usize) -> (r: Step<
    Result<PushResult, String>,
>)
    requires
        k <= outcomes@.len(),
    ensures
        push_step(r) == fallback_phase(repo_path@, outcomes@, k as int),
{
    if outcomes.len() == k {
        let args = vec![own("push")];
        assert(strs(args@) =~= seq!["push"@]);
        return Step::Run(git_in(repo_path, args));
    }
    let output = match &outcomes[k] {
        Err(e) => {
            return Step::Done(Err(cat("Failed to push: ", e.as_str())));
        },
        Ok(p) => {
            if p.success {
                push_output_of(p)
            } else if !push_needs_upstream_retry(p.stderr.as_str()) {
                return Step::Done(Err(cat("Failed to push: ", p.stderr.as_str())));
            } else if outcomes.len() == k + 1 {
                let args = vec![own("push"), own("-u"), own("origin"), own("HEAD")];
                assert(strs(args@) =~= seq!["push"@, "-u"@, "origin"@, "HEAD"@]);
                return Step::Run(git_in(repo_path, args));
            } else {
                match &outcomes[k + 1] {
                    Err(e) => {
                        return Step::Done(Err(cat("Failed to push: ", e.as_str())));
                    },
                    Ok(u) => {
                        if !u.success {
                            return Step::Done(Err(cat("Failed to push: ", u.stderr.as_str())));
                        }
                        push_output_of(u)
                    },
                }
            }
        },
    };
    Step::Done(
        Ok(
            PushResult {
                output,
                fell_back: true,
                permission_denied: false,
                pushed_remote: None,
                pushed_branch: None,
            },
        ),
    )
}

fn lease_push(
    repo_path: &str,
    remote: &str,
    branch: &str,
    failure: &str,
    outcomes: &Vec<Outcome>,
    k: usize,
) -> (r: Step<Result<PushResult, String>>)
    requires
        k <= outcomes@.len(),
    ensures
        push_step(r) == lease_push_phase(
            repo_path@,
            remote@,
            branch@,
            failure@,
            outcomes@,
            k as int,
        ),
{
    if outcomes.len() == k {
        let args = vec![own("push"), own("--force-with-lease"), own(remote), cat("HEAD:", branch)];
        assert(strs(args@) =~= seq!["push"@, "--force-with-lease"@, remote@, "HEAD:"@ + branch@]);
        return Step::Run(git_in(repo_path, args));
    }
    match &outcomes[k] {
        Err(e) => Step::Done(Err(cat(failure, e.as_str()))),
        Ok(p) => {
            if p.success {
                Step::Done(
                    Ok(
                        PushResult {
                            output: push_output_of(p),
                            fell_back: false,
                            permission_denied: false,
                            pushed_remote: Some(own(remote)),
                            pushed_branch: Some(own(branch)),
                        },
                    ),
                )
            } else if is_permission_error(p.stderr.as_str()) {
                Step::Done(
                    Ok(
                        PushResult {
                            output: p.stderr.clone(),
                            fell_back: false,
                            permission_denied: true,
                            pushed_remote: None,
                            pushed_branch: None,
                        },
                    ),
                )
            } else {
                regular_push(repo_path, outcomes, k + 1)
            }
        },
    }
}

fn fork_fetch(repo_path: &str, remote: &str, branch: &str, outcomes: &Vec<Outcome>, k: usize) -> (r:
    Step<Result<PushResult, String>>)
    requires
        k <= outcomes@.len(),
    ensures
        push_step(r) == fork_fetch_phase(repo_path@, remote@, branch@, outcomes@, k as int),
{
    if outcomes.len() == k {
        let args = vec![own("fetch"), own(remote), own(branch)];
        assert(strs(args@) =~= seq!["fetch"@, remote@, branch@]);
        return Step::Run(git_in(repo_path, args));
    }
    match &outcomes[k] {
        Err(e) => Step::Done(Err(cat("Failed to fetch from fork: ", e.as_str()))),
        Ok(_) => lease_push(repo_path, remote, branch, "Failed to push to fork: ", outcomes, k + 1),
    }
}

/// The URL of a fork on GitHub, over the same transport as `origin_url`.
pub fn fork_url_for(origin_url: &str, owner: &str, name: &str) -> (r: String)
    ensures
        r@ == fork_url(origin_url@, owner@, name@),
{
    let u = chars_of(origin_url);
    let head = if starts_with_str(u.as_slice(), "git@") || starts_with_str(u.as_slice(), "ssh://") {
        "git@github.com:"
    } else {
        "https://github.com/"
    };
    let mut r = cat3(head, owner, "/");
    r.append(name);
    r.append(".git");
    r
}

/// The name of an existing remote for the fork, from `git remote -v` output.
pub fn find_fork_remote(remotes: &str, url: &str, slug: &str) -> (r: Option<String>)
    ensures
        opt_str(r) == fork_remote(remotes@, url@, slug@),
{
    let text = chars_of(remotes);
    let ls = split_lines(text.as_slice());
    let u = chars_of(url);
    let sl = chars_of(slug);
    let ghost all = texts(ls@);
    let mut i: usize = 0;
    assert(all.skip(0) =~= all);
    while i < ls.len()
        invariant
            i <= ls@.len(),
            all == texts(ls@),
            all == lines(remotes@),
            u@ == url@,
            sl@ == slug@,
            first_line_mentioning(all, url@, slug@) == first_line_mentioning(
                all.skip(i as int),
                url@,
                slug@,
            ),
        decreases ls.len() - i,
    {
        let line = &ls[i];
        assert(all.skip(i as int)[0] == line@);
        if contains(line.as_slice(), u.as_slice()) || contains(line.as_slice(), sl.as_slice()) {
            return match first_word_of(line.as_slice()) {
                Some(w) => Some(string_of(w.as_slice())),
                None => None,
            };
        }
        assert(all.skip(i as int).drop_first() =~= all.skip(i + 1));
        i = i + 1;
    }
    None
}

fn fork_push(
    repo_path: &str,
    branch: &str,
    owner: &str,
    name: &str,
    outcomes: &Vec<Outcome>,
) -> (r: Step<Result<PushResult, String>>)
    requires
        1 <= outcomes@.len(),
    ensures
        push_step(r) == fork_phase(repo_path@, branch@, owner@, name@, outcomes@),
{
    if outcomes.len() == 1 {
        let args = vec![own("remote"), own("get-url"), own("origin")];
        assert(strs(args@) =~= seq!["remote"@, "get-url"@, "origin"@]);
        return Step::Run(git_in(repo_path, args));
    }
    match &outcomes[1] {
        Err(e) => Step::Done(Err(cat("Failed to get origin URL: ", e.as_str()))),
        Ok(u) => {
            let origin = string_of(trimmed(chars_of(u.stdout.as_str()).as_slice()).as_slice());
            let url = fork_url_for(origin.as_str(), owner, name);
            if outcomes.len() == 2 {
                let args = vec![own("remote"), own("-v")];
                assert(strs(args@) =~= seq!["remote"@, "-v"@]);
                return Step::Run(git_in(repo_path, args));
            }
            match &outcomes[2] {
                Err(e) => Step::Done(Err(cat("Failed to list remotes: ", e.as_str()))),
                Ok(r) => {
                    let slug = cat3(owner, "/", name);
                    match find_fork_remote(r.stdout.as_str(), url.as_str(), slug.as_str()) {
                        Some(remote) => fork_fetch(repo_path, remote.as_str(), branch, outcomes, 3),
                        None => {
                            if outcomes.len() == 3 {
                                let args = vec![own("remote"), own("add"), own(owner), url];
                                assert(strs(args@) =~= seq!["remote"@, "add"@, owner@, fork_url(trim(u.stdout@), owner@, name@)]);
                                return Step::Run(git_in(repo_path, args));
                            }
                            fork_fetch(repo_path, owner, branch, outcomes, 4)
                        },
                    }
                },
            }
        },
    }
}

/// Pushes the worktree's `HEAD` to the branch of pull request `pr_number` with
/// `--force-with-lease`: to `origin` for a same-repository pull request, to a
/// remote for the fork otherwise (added when missing). A refusal for lack of
/// permission is reported as such; other failures, and a failing
/// `gh pr view`, fall back to a regular push.
pub fn git_push_to_pr(repo_path: &str, pr_number: u32, outcomes: &Vec<Outcome>) -> (r: Step<
    Result<PushResult, String>,
>)
    ensures
        push_step(r) == push_to_pr_next(repo_path@, pr_number, outcomes@),
{
    if outcomes.len() == 0 {
        let args = vec![
            own("pr"),
            own("view"),
            decimal_string(pr_number as u64),
            own("--json"),
            own("headRefName,isCrossRepository,headRepositoryOwner,headRepository"),
        ];
        proof {
            reveal_strlit("headRefName,isCrossRepository,headRepositoryOwner,headRepository");
        }
        assert(strs(args@) =~= seq!["pr"@, "view"@, decimal(pr_number as nat), "--json"@, pr_view_fields()]);
        return Step::Run(gh_in(repo_path, args));
    }
    match &outcomes[0] {
        Err(e) => Step::Done(Err(cat("Failed to run gh pr view: ", e.as_str()))),
        Ok(v) => {
            if !v.success {
                return regular_push(repo_path, outcomes, 1);
            }
            let info = v.stdout.as_str();
            if let Some(e) = json_syntax_error(info) {
                return Step::Done(Err(cat("Failed to parse gh pr view output: ", e.as_str())));
            }
            let branch = match json_str_at(info, "/headRefName") {
                Some(b) => b,
                None => {
                    return Step::Done(Err(own("Missing headRefName in PR info")));
                },
            };
            let cross = match json_bool_at(info, "/isCrossRepository") {
                Some(true) => true,
                _ => false,
            };
            if !cross {
                return lease_push(
                    repo_path,
                    "origin",
                    branch.as_str(),
                    "Failed to run git push: ",
                    outcomes,
                    1,
                );
            }
            let owner = match json_str_at(info, "/headRepositoryOwner/login") {
                Some(o) => o,
                None => {
                    return Step::Done(Err(own("Missing headRepositoryOwner.login in PR info")));
                },
            };
            let name = match json_str_at(info, "/headRepository/name") {
                Some(n) => n,
                None => {
                    return Step::Done(Err(own("Missing headRepository.name in PR info")));
                },
            };
            fork_push(repo_path, branch.as_str(), owner.as_str(), name.as_str(), outcomes)
        },
    }
}

} // verus!
